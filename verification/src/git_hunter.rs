//! Forging a Git project outside the container: its URL, name, version and the
//! commands that build and install it.

use vstd::prelude::*;
use crate::config::{join_rel, join_rel_exec, strings_view};
use crate::micro_repo::{trim_end_matches, trim_end_matches_chars};
use crate::text::{
    append, append_str, chars_of, contains, contains_str, decimal, decimal_chars, lowercase, rfind,
    rfind_char, slice_chars, starts_with, starts_with_str, string_of, to_lowercase_chars, trim,
    trim_chars,
};

verus! {

/// The clone URL for a target: a URL as given, `owner/repo` on GitHub, or a bare
/// name taken as `name/name` on GitHub.
pub open spec fn spec_git_url(target: Seq<char>) -> Seq<char> {
    if starts_with(target, "http://"@) || starts_with(target, "https://"@) || starts_with(target, "git@"@) {
        target
    } else if contains(target, "/"@) {
        "https://github.com/"@ + trim_end_matches(target, ".git"@) + ".git"@
    } else {
        "https://github.com/"@ + target + "/"@ + target + ".git"@
    }
}

/// The package name of a clone URL: its last `/` part without `.git`, lowercased.
pub open spec fn spec_forge_pkg_name(url: Seq<char>) -> Seq<char> {
    let t = trim_end_matches(url, "/"@);
    let k = rfind(t, '/');
    let last = if k >= 0 { t.skip(k + 1) } else { t };
    lowercase(trim_end_matches(last, ".git"@))
}

/// How a forged build runs: an optional configure step, then the build.
#[derive(Debug, Clone)]
pub struct ForgeCommands {
    pub configure: Option<(String, Vec<String>)>,
    pub program: String,
    pub args: Vec<String>,
}

/// The build step for a build type (as the detector names it): cargo for Rust,
/// `go build` into `dest/bin/<pkg>` for Go, a CMake configure and build, or make.
pub open spec fn spec_forge_build(build_type: Seq<char>, dest: Seq<char>, pkg: Seq<char>, jobs: nat) -> (
    Option<(Seq<char>, Seq<Seq<char>>)>,
    Seq<char>,
    Seq<Seq<char>>,
) {
    if contains(build_type, "Rust"@) {
        (None, "cargo"@, seq!["build"@, "--release"@, "--locked"@])
    } else if contains(build_type, "Go"@) {
        (None, "go"@, seq!["build"@, "-v"@, "-o"@, dest + "/bin/"@ + pkg])
    } else if contains(build_type, "CMake"@) {
        (
            Some(("cmake"@, seq!["-B"@, "build"@, "-DCMAKE_BUILD_TYPE=Release"@, "-DCMAKE_INSTALL_PREFIX="@ + dest])),
            "cmake"@,
            seq!["--build"@, "build"@, "-j"@, decimal(jobs)],
        )
    } else {
        (None, "make"@, seq!["-j"@, decimal(jobs)])
    }
}

/// The install step for a build type; `None` for Rust, whose executables are
/// copied instead.
pub open spec fn spec_forge_install(build_type: Seq<char>, dest: Seq<char>) -> Option<(Seq<char>, Seq<Seq<char>>)> {
    if contains(build_type, "Rust"@) {
        None
    } else if contains(build_type, "CMake"@) {
        Some(("cmake"@, seq!["--install"@, "build"@, "--prefix"@, dest]))
    } else {
        Some(("make"@, seq!["install"@, "DESTDIR="@ + dest]))
    }
}

pub struct GitHunter;

fn strs(a: &[&str]) -> (v: Vec<String>)
    ensures
        strings_view(v@) == a@.map_values(|x: &str| x@),
{
    let mut v: Vec<String> = Vec::new();
    let mut i: usize = 0;
    while i < a.len()
        invariant
            i <= a.len(),
            strings_view(v@) == a@.take(i as int).map_values(|x: &str| x@),
        decreases a.len() - i,
    {
        let ghost b = strings_view(v@);
        v.push(a[i].to_owned());
        assert(strings_view(v@) == b.push(a@[i as int]@));
        assert(a@.take(i + 1).map_values(|x: &str| x@) == a@.take(i as int).map_values(
            |x: &str| x@,
        ).push(a@[i as int]@));
        i = i + 1;
    }
    assert(a@.take(i as int) == a@);
    v
}

fn push_string(v: &mut Vec<String>, x: String)
    ensures
        strings_view(final(v)@) == strings_view(old(v)@).push(x@),
{
    let ghost b = strings_view(v@);
    let ghost xv = x@;
    v.push(x);
    assert(strings_view(v@) == b.push(xv));
}

fn text2(a: &str, b: &[char]) -> (r: String)
    ensures
        r@ == a@ + b@,
{
    let mut v = chars_of(a);
    append(&mut v, b);
    string_of(&v)
}

impl GitHunter {
    /// The clone URL for a target.
    pub fn git_url(target: &str) -> (u: String)
        ensures
            u@ == spec_git_url(target@),
    {
        let t = chars_of(target);
        if starts_with_str(&t, "http://") || starts_with_str(&t, "https://") || starts_with_str(&t, "git@") {
            string_of(&t)
        } else if contains_str(&t, "/") {
            let mut v = chars_of("https://github.com/");
            append(&mut v, &trim_end_matches_chars(&t, ".git"));
            append_str(&mut v, ".git");
            string_of(&v)
        } else {
            let mut v = chars_of("https://github.com/");
            append(&mut v, &t);
            append_str(&mut v, "/");
            append(&mut v, &t);
            append_str(&mut v, ".git");
            string_of(&v)
        }
    }

    /// The package name of a clone URL.
    pub fn pkg_name(git_url: &str) -> (n: String)
        ensures
            n@ == spec_forge_pkg_name(git_url@),
    {
        let t = trim_end_matches_chars(&chars_of(git_url), "/");
        let last = match rfind_char(&t, '/') {
            Some(k) => slice_chars(&t, k + 1, t.len()),
            None => slice_chars(&t, 0, t.len()),
        };
        assert(t@.subrange(0, t@.len() as int) == t@);
        let base = trim_end_matches_chars(&last, ".git");
        string_of(&to_lowercase_chars(&base))
    }

    /// The version of a forged build: `git-` and the short commit hash when
    /// `git rev-parse` ran, `1.0.0` otherwise.
    pub fn version(rev_parse_output: Option<&str>) -> (v: String)
        ensures
            v@ == match rev_parse_output {
                Some(o) => "git-"@ + trim(o@),
                None => "1.0.0"@,
            },
    {
        match rev_parse_output {
            Some(o) => text2("git-", &trim_chars(&chars_of(o))),
            None => String::from_str("1.0.0"),
        }
    }

    /// The build step for a build type, installing into `dest` with `jobs` jobs.
    pub fn build_commands(build_type: &str, dest: &str, pkg_name: &str, jobs: usize) -> (c: ForgeCommands)
        ensures
            ({
                let (conf, prog, args) = spec_forge_build(build_type@, dest@, pkg_name@, jobs as nat);
                &&& match c.configure {
                    Some((p, a)) => conf == Some((p@, strings_view(a@))),
                    None => conf.is_none(),
                }
                &&& c.program@ == prog
                &&& strings_view(c.args@) == args
            }),
    {
        let bt = chars_of(build_type);
        let j = decimal_chars(jobs as u64);
        if contains_str(&bt, "Rust") {
            let a: [&str; 3] = ["build", "--release", "--locked"];
            let args = strs(&a);
            assert(a@.map_values(|x: &str| x@) =~= seq!["build"@, "--release"@, "--locked"@]);
            ForgeCommands { configure: None, program: String::from_str("cargo"), args }
        } else if contains_str(&bt, "Go") {
            let a: [&str; 3] = ["build", "-v", "-o"];
            let mut args = strs(&a);
            let mut out = chars_of(dest);
            append_str(&mut out, "/bin/");
            append_str(&mut out, pkg_name);
            let ghost b = strings_view(args@);
            args.push(string_of(&out));
            assert(strings_view(args@) == b.push(out@));
            assert(strings_view(args@) =~= seq!["build"@, "-v"@, "-o"@, dest@ + "/bin/"@ + pkg_name@]);
            ForgeCommands { configure: None, program: String::from_str("go"), args }
        } else if contains_str(&bt, "CMake") {
            let ca: [&str; 3] = ["-B", "build", "-DCMAKE_BUILD_TYPE=Release"];
            let mut cargs = strs(&ca);
            assert(strings_view(cargs@) =~= seq!["-B"@, "build"@, "-DCMAKE_BUILD_TYPE=Release"@]);
            let p = text2("-DCMAKE_INSTALL_PREFIX=", &chars_of(dest));
            push_string(&mut cargs, p);
            assert(strings_view(cargs@) =~= seq![
                "-B"@, "build"@, "-DCMAKE_BUILD_TYPE=Release"@, "-DCMAKE_INSTALL_PREFIX="@ + dest@,
            ]);
            let ba: [&str; 3] = ["--build", "build", "-j"];
            let mut args = strs(&ba);
            assert(strings_view(args@) =~= seq!["--build"@, "build"@, "-j"@]);
            push_string(&mut args, string_of(&j));
            assert(strings_view(args@) =~= seq!["--build"@, "build"@, "-j"@, decimal(jobs as nat)]);
            ForgeCommands {
                configure: Some((String::from_str("cmake"), cargs)),
                program: String::from_str("cmake"),
                args,
            }
        } else {
            let ma: [&str; 1] = ["-j"];
            let mut args = strs(&ma);
            assert(strings_view(args@) =~= seq!["-j"@]);
            push_string(&mut args, string_of(&j));
            assert(strings_view(args@) =~= seq!["-j"@, decimal(jobs as nat)]);
            ForgeCommands { configure: None, program: String::from_str("make"), args }
        }
    }

    /// The install step for a build type, installing into `dest`.
    pub fn install_command(build_type: &str, dest: &str) -> (c: Option<(String, Vec<String>)>)
        ensures
            match c {
                Some((p, a)) => spec_forge_install(build_type@, dest@) == Some((p@, strings_view(a@))),
                None => spec_forge_install(build_type@, dest@).is_none(),
            },
    {
        let bt = chars_of(build_type);
        if contains_str(&bt, "Rust") {
            None
        } else if contains_str(&bt, "CMake") {
            let a: [&str; 3] = ["--install", "build", "--prefix"];
            let mut args = strs(&a);
            assert(strings_view(args@) =~= seq!["--install"@, "build"@, "--prefix"@]);
            push_string(&mut args, dest.to_owned());
            assert(strings_view(args@) =~= seq!["--install"@, "build"@, "--prefix"@, dest@]);
            Some((String::from_str("cmake"), args))
        } else {
            let a: [&str; 1] = ["install"];
            let mut args = strs(&a);
            assert(strings_view(args@) =~= seq!["install"@]);
            push_string(&mut args, text2("DESTDIR=", &chars_of(dest)));
            assert(strings_view(args@) =~= seq!["install"@, "DESTDIR="@ + dest@]);
            Some((String::from_str("make"), args))
        }
    }

    /// Whether a file of a Rust release directory is installed: it is executable
    /// by someone (`mode & 0o111`) and its path holds no `.d`.
    pub fn is_release_binary(mode: u32, path: &str) -> (b: bool)
        ensures
            b == (mode & 0o111u32 != 0 && !contains(path@, ".d"@)),
    {
        mode & 0o111u32 != 0 && !contains_str(&chars_of(path), ".d")
    }

    /// The directories of a forge: the clone and the install destination.
    pub fn forge_dirs(forge_dir: &str) -> (d: (String, String))
        ensures
            d.0@ == join_rel(forge_dir@, "src"@),
            d.1@ == join_rel(forge_dir@, "dest"@),
    {
        (join_rel_exec(forge_dir, "src"), join_rel_exec(forge_dir, "dest"))
    }
}

} // verus!
