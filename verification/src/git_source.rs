//! Building packages straight from Git repositories: the build system and its
//! script, the version, the package metadata and the archive layout.

use vstd::prelude::*;
use crate::config::{join_rel, join_rel_exec, strings_view};
use crate::text::{
    append, append_str, chars_of, contains, contains_str, decimal, decimal_chars, eq_chars,
    lowercase, parse_u64, parse_u64_chars, replace, replace_str, rfind, rfind_char, slice_chars,
    string_of, to_lowercase_chars, trim, trim_chars,
};
use crate::micro_repo::{trim_end_matches, trim_end_matches_chars};
use crate::deb_hunt::{opt_bytes, zstd_encode, zstd_encoded};

verus! {

/// The build systems a Git repository can use.
#[derive(Debug, Clone, Copy, PartialEq, Eq, Structural)]
pub enum BuildToolchain {
    Rust,
    Meson,
    CMake,
    Make,
}

/// Why a Git build could not proceed.
#[derive(Debug, Clone, Copy, PartialEq, Eq, Structural)]
pub enum GitBuildError {
    /// The URL names no repository.
    UnparsableUrl,
    /// No `Cargo.toml`, `meson.build`, `CMakeLists.txt` or `Makefile` was found.
    NoBuildSystem,
}

/// The marker files found in a cloned repository (at the top or under `src/`).
#[derive(Debug, Clone, Copy)]
pub struct RepoMarkers {
    pub cargo_toml: bool,
    pub meson_build: bool,
    pub src_meson_build: bool,
    pub cmake_lists: bool,
    pub src_cmake_lists: bool,
    pub makefile: bool,
    pub makefile_lower: bool,
    pub src_makefile: bool,
    pub src_makefile_lower: bool,
}

impl BuildToolchain {
    /// The name shown for a toolchain.
    pub fn display_name(self) -> (s: &'static str)
        ensures
            s@ == match self {
                BuildToolchain::Rust => "Rust (cargo)"@,
                BuildToolchain::Meson => "Meson / Ninja"@,
                BuildToolchain::CMake => "CMake / Ninja"@,
                BuildToolchain::Make => "GNU Make"@,
            },
    {
        match self {
            BuildToolchain::Rust => "Rust (cargo)",
            BuildToolchain::Meson => "Meson / Ninja",
            BuildToolchain::CMake => "CMake / Ninja",
            BuildToolchain::Make => "GNU Make",
        }
    }
}

/// The toolchain and the staging build script for a repository, the scripts
/// running `jobs` parallel jobs and installing into `/staging`.
pub open spec fn spec_toolchain(m: RepoMarkers, jobs: nat) -> Option<(BuildToolchain, Seq<char>)> {
    let j = decimal(jobs);
    if m.cargo_toml {
        Some((BuildToolchain::Rust,
            "mkdir -p /staging/usr/bin && cargo build --release --locked -j "@ + j
                + " && find target/release -maxdepth 1 -type f -executable ! -name '*.so' ! -name '*.d' -exec cp {} /staging/usr/bin/ \\;"@))
    } else if m.meson_build {
        Some((BuildToolchain::Meson,
            "meson setup _build --prefix=/usr --buildtype=release && ninja -C _build -j "@ + j
                + " && DESTDIR=/staging ninja -C _build -j "@ + j + " install"@))
    } else if m.src_meson_build {
        Some((BuildToolchain::Meson,
            "meson setup _build src --prefix=/usr --buildtype=release && ninja -C _build -j "@ + j
                + " && DESTDIR=/staging ninja -C _build -j "@ + j + " install"@))
    } else if m.cmake_lists {
        Some((BuildToolchain::CMake,
            "cmake -B _build -DCMAKE_INSTALL_PREFIX=/usr -DCMAKE_BUILD_TYPE=Release && cmake --build _build --parallel "@
                + j + " && DESTDIR=/staging cmake --install _build"@))
    } else if m.src_cmake_lists {
        Some((BuildToolchain::CMake,
            "cmake -B _build -S src -DCMAKE_INSTALL_PREFIX=/usr -DCMAKE_BUILD_TYPE=Release && cmake --build _build --parallel "@
                + j + " && DESTDIR=/staging cmake --install _build"@))
    } else if m.makefile || m.makefile_lower {
        Some((BuildToolchain::Make,
            "make -j"@ + j
                + " && (make DESTDIR=/staging PREFIX=/usr install || make DESTDIR=/staging install || make PREFIX=/staging/usr install)"@))
    } else if m.src_makefile || m.src_makefile_lower {
        Some((BuildToolchain::Make,
            "make -C src -j"@ + j
                + " && (make -C src DESTDIR=/staging PREFIX=/usr install || make -C src DESTDIR=/staging install || make -C src PREFIX=/staging/usr install)"@))
    } else {
        None
    }
}

fn text3(a: &str, b: &[char], c: &str) -> (r: String)
    ensures
        r@ == a@ + b@ + c@,
{
    let mut v = chars_of(a);
    append(&mut v, b);
    append_str(&mut v, c);
    string_of(&v)
}

fn text5(a: &str, b: &[char], c: &str, d: &[char], e: &str) -> (r: String)
    ensures
        r@ == a@ + b@ + c@ + d@ + e@,
{
    let mut v = chars_of(a);
    append(&mut v, b);
    append_str(&mut v, c);
    append(&mut v, d);
    append_str(&mut v, e);
    string_of(&v)
}

/// The toolchain of a repository and the script that builds it into `/staging`.
pub fn detect_toolchain(markers: &RepoMarkers, jobs: usize) -> (r: Result<(BuildToolchain, String), GitBuildError>)
    ensures
        match r {
            Ok((t, script)) => spec_toolchain(*markers, jobs as nat) == Some((t, script@)),
            Err(e) => e == GitBuildError::NoBuildSystem && spec_toolchain(*markers, jobs as nat).is_none(),
        },
{
    let j = decimal_chars(jobs as u64);
    if markers.cargo_toml {
        Ok((BuildToolchain::Rust, text3(
            "mkdir -p /staging/usr/bin && cargo build --release --locked -j ",
            &j,
            " && find target/release -maxdepth 1 -type f -executable ! -name '*.so' ! -name '*.d' -exec cp {} /staging/usr/bin/ \\;",
        )))
    } else if markers.meson_build {
        Ok((BuildToolchain::Meson, text5(
            "meson setup _build --prefix=/usr --buildtype=release && ninja -C _build -j ",
            &j,
            " && DESTDIR=/staging ninja -C _build -j ",
            &j,
            " install",
        )))
    } else if markers.src_meson_build {
        Ok((BuildToolchain::Meson, text5(
            "meson setup _build src --prefix=/usr --buildtype=release && ninja -C _build -j ",
            &j,
            " && DESTDIR=/staging ninja -C _build -j ",
            &j,
            " install",
        )))
    } else if markers.cmake_lists {
        Ok((BuildToolchain::CMake, text3(
            "cmake -B _build -DCMAKE_INSTALL_PREFIX=/usr -DCMAKE_BUILD_TYPE=Release && cmake --build _build --parallel ",
            &j,
            " && DESTDIR=/staging cmake --install _build",
        )))
    } else if markers.src_cmake_lists {
        Ok((BuildToolchain::CMake, text3(
            "cmake -B _build -S src -DCMAKE_INSTALL_PREFIX=/usr -DCMAKE_BUILD_TYPE=Release && cmake --build _build --parallel ",
            &j,
            " && DESTDIR=/staging cmake --install _build",
        )))
    } else if markers.makefile || markers.makefile_lower {
        Ok((BuildToolchain::Make, text3(
            "make -j",
            &j,
            " && (make DESTDIR=/staging PREFIX=/usr install || make DESTDIR=/staging install || make PREFIX=/staging/usr install)",
        )))
    } else if markers.src_makefile || markers.src_makefile_lower {
        Ok((BuildToolchain::Make, text3(
            "make -C src -j",
            &j,
            " && (make -C src DESTDIR=/staging PREFIX=/usr install || make -C src DESTDIR=/staging install || make -C src PREFIX=/staging/usr install)",
        )))
    } else {
        Err(GitBuildError::NoBuildSystem)
    }
}

// ----------------------------------------------------------------------------
// Repository name
// ----------------------------------------------------------------------------

/// The repository name of a clone URL: the last path part, lowercased, after
/// blanks, trailing `/` and a `.git` suffix are removed; `None` when there is
/// no `/` or nothing after it.
pub open spec fn spec_repo_name(url: Seq<char>) -> Option<Seq<char>> {
    let t = trim_end_matches(trim_end_matches(trim(url), "/"@), ".git"@);
    let pos = rfind(t, '/');
    if pos >= 0 && t.skip(pos + 1).len() > 0 {
        Some(lowercase(t.skip(pos + 1)))
    } else {
        None
    }
}

/// The package name of a Git repository URL.
pub fn extract_repo_name(url: &str) -> (r: Result<String, GitBuildError>)
    ensures
        match r {
            Ok(n) => spec_repo_name(url@) == Some(n@),
            Err(e) => e == GitBuildError::UnparsableUrl && spec_repo_name(url@).is_none(),
        },
{
    let t0 = trim_chars(&chars_of(url));
    let t1 = trim_end_matches_chars(&t0, "/");
    let t = trim_end_matches_chars(&t1, ".git");
    match rfind_char(&t, '/') {
        Some(pos) => {
            let name = slice_chars(&t, pos + 1, t.len());
            assert(name@ == t@.skip(pos + 1));
            if name.len() > 0 {
                Ok(string_of(&to_lowercase_chars(&name)))
            } else {
                Err(GitBuildError::UnparsableUrl)
            }
        },
        None => Err(GitBuildError::UnparsableUrl),
    }
}

// ----------------------------------------------------------------------------
// Versions
// ----------------------------------------------------------------------------

/// `s` without its leading `c` characters.
pub open spec fn trim_leading_char(s: Seq<char>, c: char) -> Seq<char>
    decreases s.len(),
{
    if s.len() > 0 && s[0] == c {
        trim_leading_char(s.drop_first(), c)
    } else {
        s
    }
}

fn trim_leading_chars(v: &[char], c: char) -> (r: Vec<char>)
    ensures
        r@ == trim_leading_char(v@, c),
{
    let mut k: usize = 0;
    assert(v@.skip(0) == v@);
    while k < v.len() && v[k] == c
        invariant
            k <= v.len(),
            trim_leading_char(v@, c) == trim_leading_char(v@.skip(k as int), c),
        decreases v.len() - k,
    {
        assert(v@.skip(k as int).drop_first() == v@.skip(k + 1));
        k = k + 1;
    }
    let r = slice_chars(v, k, v.len());
    assert(r@ == v@.skip(k as int));
    r
}

/// The commit count `git rev-list --count HEAD` printed, or 1 when it printed
/// no number (or did not run).
pub open spec fn spec_commit_count(out: Option<Seq<char>>) -> nat {
    match out {
        Some(o) => match parse_u64(trim(o)) {
            Some(n) => if n <= usize::MAX { n as nat } else { 1 },
            None => 1,
        },
        None => 1,
    }
}

/// The number of commits from the output of a successful `git rev-list --count HEAD`.
pub fn commit_count(out: Option<&str>) -> (n: usize)
    ensures
        n == spec_commit_count(match out {
            Some(o) => Some(o@),
            None => None,
        }),
{
    match out {
        Some(o) => {
            let t = trim_chars(&chars_of(o));
            match parse_u64_chars(&t) {
                Some(n) => if n <= usize::MAX as u64 {
                    n as usize
                } else {
                    1
                },
                None => 1,
            }
        },
        None => 1,
    }
}

/// The package version of a clone: from the tag `git describe` printed (without
/// leading `v`, dashes made dots) and the commit count, or from the count and the
/// short commit hash when there is no tag.
pub open spec fn spec_git_version(describe: Option<Seq<char>>, count: nat, sha: Option<Seq<char>>) -> Seq<char> {
    let tag = match describe {
        Some(d) => trim(d),
        None => seq![],
    };
    if tag.len() > 0 {
        replace(trim_leading_char(tag, 'v'), "-"@, "."@) + ".r"@ + decimal(count) + "-1"@
    } else {
        let h = match sha {
            Some(s) => trim(s),
            None => "g000000"@,
        };
        "0.1.0.r"@ + decimal(count) + ".g"@ + h + "-1"@
    }
}

/// The package version of a cloned repository, from the output of a successful
/// `git describe --tags --always` (if any), the commit count, and the output of
/// `git rev-parse --short HEAD` (if it ran).
pub fn git_version(describe: Option<&str>, count: usize, sha: Option<&str>) -> (v: String)
    ensures
        v@ == spec_git_version(
            match describe {
                Some(d) => Some(d@),
                None => None,
            },
            count as nat,
            match sha {
                Some(s) => Some(s@),
                None => None,
            },
        ),
{
    let tag: Vec<char> = match describe {
        Some(d) => trim_chars(&chars_of(d)),
        None => Vec::new(),
    };
    let c = decimal_chars(count as u64);
    if tag.len() > 0 {
        let nv = trim_leading_chars(&tag, 'v');
        proof {
            reveal_strlit("-");
        }
        let mut s = replace_str(&nv, "-", &chars_of("."));
        append_str(&mut s, ".r");
        append(&mut s, &c);
        append_str(&mut s, "-1");
        string_of(&s)
    } else {
        let h: Vec<char> = match sha {
            Some(x) => trim_chars(&chars_of(x)),
            None => chars_of("g000000"),
        };
        let mut s = chars_of("0.1.0.r");
        append(&mut s, &c);
        append_str(&mut s, ".g");
        append(&mut s, &h);
        append_str(&mut s, "-1");
        string_of(&s)
    }
}

// ----------------------------------------------------------------------------
// Package metadata and archive
// ----------------------------------------------------------------------------

/// The `.PKGINFO` of a package built from Git.
pub open spec fn spec_pkginfo(pkg: Seq<char>, ver: Seq<char>, url: Seq<char>, date: nat, size: nat) -> Seq<char> {
    "# Generated by Mimic v4.0.0 Git Source Runner\npkgname = "@ + pkg + "\npkgver = "@ + ver
        + "\npkgdesc = "@ + pkg + " built from git source ("@ + url + ")\nurl = "@ + url
        + "\nbuilddate = "@ + decimal(date)
        + "\npackager = Mimic Native Git Builder <mimic@archlinux>\nsize = "@ + decimal(size)
        + "\narch = x86_64\nlicense = custom\n"@
}

/// The `.BUILDINFO` of a package built from Git.
pub open spec fn spec_buildinfo(pkg: Seq<char>, ver: Seq<char>, date: nat) -> Seq<char> {
    "format = 2\npkgname = "@ + pkg + "\npkgver = "@ + ver
        + "\npkgarch = x86_64\npkgbuild_sha256sum = none\npackager = Mimic Native Git Builder <mimic@archlinux>\nbuilddate = "@
        + decimal(date) + "\nbuilddir = /build\nbuildenv = sccache mold\ninstalled = base\n"@
}

/// The `.PKGINFO` text, for a build at Unix time `build_date` whose staged files
/// take `total_size` bytes.
pub fn generate_pkginfo(pkg_name: &str, version: &str, url: &str, build_date: u64, total_size: u64) -> (s: String)
    ensures
        s@ == spec_pkginfo(pkg_name@, version@, url@, build_date as nat, total_size as nat),
{
    let mut v = chars_of("# Generated by Mimic v4.0.0 Git Source Runner\npkgname = ");
    append_str(&mut v, pkg_name);
    append_str(&mut v, "\npkgver = ");
    append_str(&mut v, version);
    append_str(&mut v, "\npkgdesc = ");
    append_str(&mut v, pkg_name);
    append_str(&mut v, " built from git source (");
    append_str(&mut v, url);
    append_str(&mut v, ")\nurl = ");
    append_str(&mut v, url);
    append_str(&mut v, "\nbuilddate = ");
    append(&mut v, &decimal_chars(build_date));
    append_str(&mut v, "\npackager = Mimic Native Git Builder <mimic@archlinux>\nsize = ");
    append(&mut v, &decimal_chars(total_size));
    append_str(&mut v, "\narch = x86_64\nlicense = custom\n");
    string_of(&v)
}

/// The `.BUILDINFO` text, for a build at Unix time `build_date`.
pub fn generate_buildinfo(pkg_name: &str, version: &str, build_date: u64) -> (s: String)
    ensures
        s@ == spec_buildinfo(pkg_name@, version@, build_date as nat),
{
    let mut v = chars_of("format = 2\npkgname = ");
    append_str(&mut v, pkg_name);
    append_str(&mut v, "\npkgver = ");
    append_str(&mut v, version);
    append_str(
        &mut v,
        "\npkgarch = x86_64\npkgbuild_sha256sum = none\npackager = Mimic Native Git Builder <mimic@archlinux>\nbuilddate = ",
    );
    append(&mut v, &decimal_chars(build_date));
    append_str(&mut v, "\nbuilddir = /build\nbuildenv = sccache mold\ninstalled = base\n");
    string_of(&v)
}

/// The file name of the package archive.
pub fn package_filename(pkg_name: &str, version: &str) -> (s: String)
    ensures
        s@ == pkg_name@ + "-"@ + version@ + "-x86_64.pkg.tar.zst"@,
{
    let mut v = chars_of(pkg_name);
    append_str(&mut v, "-");
    append_str(&mut v, version);
    append_str(&mut v, "-x86_64.pkg.tar.zst");
    string_of(&v)
}

/// A file found after an empty install that is copied as a package binary:
/// names without a dot for Rust, CMake and Meson builds, the package's own name
/// for Make builds.
pub open spec fn spec_fallback_binary(t: BuildToolchain, fname: Seq<char>, pkg: Seq<char>) -> bool {
    match t {
        BuildToolchain::Make => fname == pkg,
        _ => !contains(fname, "."@),
    }
}

/// Whether an executable file named `fname` is staged when the install step
/// staged nothing.
pub fn is_fallback_binary(toolchain: BuildToolchain, fname: &str, pkg_name: &str) -> (b: bool)
    ensures
        b == spec_fallback_binary(toolchain, fname@, pkg_name@),
{
    let f = chars_of(fname);
    match toolchain {
        BuildToolchain::Make => eq_chars(&f, &chars_of(pkg_name)),
        _ => !contains_str(&f, "."),
    }
}

/// The `git clone` arguments for a shallow clone of `url` (on `branch`, if given)
/// into `dest`.
pub fn clone_args(url: &str, branch: Option<&str>, dest: &str) -> (a: Vec<String>)
    ensures
        strings_view(a@) == seq!["clone"@, "--depth"@, "1"@] + match branch {
            Some(b) => seq!["--branch"@, b@],
            None => seq![],
        } + seq![url@, dest@],
{
    let mut a: Vec<String> = Vec::new();
    a.push("clone".to_owned());
    a.push("--depth".to_owned());
    a.push("1".to_owned());
    let ghost s0 = strings_view(a@);
    assert(s0 =~= seq!["clone"@, "--depth"@, "1"@]);
    match branch {
        Some(b) => {
            a.push("--branch".to_owned());
            a.push(b.to_owned());
        },
        None => {},
    }
    let ghost s1 = strings_view(a@);
    a.push(url.to_owned());
    a.push(dest.to_owned());
    assert(strings_view(a@) =~= s1 + seq![url@, dest@]);
    assert(s1 =~= s0 + match branch {
        Some(b) => seq!["--branch"@, b@],
        None => Seq::<Seq<char>>::empty(),
    });
    a
}

/// The `bsdtar` arguments that archive the staging directory: the metadata files
/// first, then the other top-level entries in the order given.
pub fn archive_args(output: &str, staging: &str, entries: &[String]) -> (a: Vec<String>)
    ensures
        strings_view(a@) == seq![
            "--uid"@, "0"@, "--gid"@, "0"@, "--zstd"@, "-cf"@, output@, "-C"@, staging@,
            ".PKGINFO"@, ".BUILDINFO"@,
        ] + strings_view(entries@).filter(|e: Seq<char>| e != ".PKGINFO"@ && e != ".BUILDINFO"@),
{
    let mut a: Vec<String> = Vec::new();
    a.push("--uid".to_owned());
    a.push("0".to_owned());
    a.push("--gid".to_owned());
    a.push("0".to_owned());
    a.push("--zstd".to_owned());
    a.push("-cf".to_owned());
    a.push(output.to_owned());
    a.push("-C".to_owned());
    a.push(staging.to_owned());
    a.push(".PKGINFO".to_owned());
    a.push(".BUILDINFO".to_owned());
    let ghost head = strings_view(a@);
    assert(head =~= seq![
        "--uid"@, "0"@, "--gid"@, "0"@, "--zstd"@, "-cf"@, output@, "-C"@, staging@,
        ".PKGINFO"@, ".BUILDINFO"@,
    ]);
    let ghost ev = strings_view(entries@);
    let mut i: usize = 0;
    while i < entries.len()
        invariant
            i <= entries.len(),
            ev == strings_view(entries@),
            strings_view(a@) == head + ev.take(i as int).filter(
                |e: Seq<char>| e != ".PKGINFO"@ && e != ".BUILDINFO"@,
            ),
        decreases entries.len() - i,
    {
        proof {
            reveal_with_fuel(Seq::filter, 1);
            assert(ev.take(i + 1).drop_last() == ev.take(i as int));
            assert(ev.take(i + 1).last() == entries@[i as int]@);
        }
        let e = chars_of(entries[i].as_str());
        if !crate::text::eq_str(&e, ".PKGINFO") && !crate::text::eq_str(&e, ".BUILDINFO") {
            let ghost b = strings_view(a@);
            a.push(entries[i].clone());
            assert(strings_view(a@) == b.push(entries@[i as int]@));
        }
        i = i + 1;
    }
    assert(ev.take(i as int) == ev);
    a
}

/// The package cache: the system one when it is usable, else
/// `$HOME/.cache/mimic/pkg`, else `/var/tmp/mimic-cache/pkg`.
pub fn resolve_pkg_cache_dir(system_cache_usable: bool, home: Option<&str>) -> (d: String)
    ensures
        d@ == if system_cache_usable {
            "/var/cache/mimic/pkg"@
        } else {
            match home {
                Some(h) => join_rel(h@, ".cache/mimic/pkg"@),
                None => "/var/tmp/mimic-cache/pkg"@,
            }
        },
{
    if system_cache_usable {
        String::from_str("/var/cache/mimic/pkg")
    } else {
        match home {
            Some(h) => join_rel_exec(h, ".cache/mimic/pkg"),
            None => String::from_str("/var/tmp/mimic-cache/pkg"),
        }
    }
}

/// Where Git builds happen and where their packages go.
#[derive(Debug, Clone)]
pub struct GitSourceRunner {
    pub base_build_dir: String,
    pub staging_dir: String,
    pub pkg_cache_dir: String,
    pub safe_jobs: usize,
}

impl GitSourceRunner {
    /// A runner building under `/var/tmp/mimic-build` with `safe_jobs` jobs and
    /// packages going to `pkg_cache_dir`.
    pub fn new(pkg_cache_dir: String, safe_jobs: usize) -> (r: GitSourceRunner)
        ensures
            r.base_build_dir@ == "/var/tmp/mimic-build/git"@,
            r.staging_dir@ == "/var/tmp/mimic-build/staging"@,
            r.pkg_cache_dir == pkg_cache_dir,
            r.safe_jobs == safe_jobs,
    {
        GitSourceRunner {
            base_build_dir: String::from_str("/var/tmp/mimic-build/git"),
            staging_dir: String::from_str("/var/tmp/mimic-build/staging"),
            pkg_cache_dir,
            safe_jobs,
        }
    }

    /// The clone directory of a package.
    pub fn repo_dir(&self, pkg_name: &str) -> (d: String)
        ensures
            d@ == join_rel(self.base_build_dir@, pkg_name@),
    {
        join_rel_exec(self.base_build_dir.as_str(), pkg_name)
    }

    /// The staging directory of a package.
    pub fn pkg_staging_dir(&self, pkg_name: &str) -> (d: String)
        ensures
            d@ == join_rel(self.staging_dir@, pkg_name@),
    {
        join_rel_exec(self.staging_dir.as_str(), pkg_name)
    }
}

/// A package archive (`.pkg.tar.zst`) from the tar of its staging directory:
/// the tar compressed with Zstandard at level 3; `None` when compression fails.
pub fn compress_package_tar(tar: &[u8]) -> (r: Option<Vec<u8>>)
    ensures
        opt_bytes(r) == zstd_encoded(tar@),
{
    zstd_encode(tar)
}

} // verus!
