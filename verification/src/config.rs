//! pacman configuration: CPU tier selection, repository lists, CachyOS injection
//! and the `pacman.conf` / mirrorlist formats.

use vstd::prelude::*;
use crate::text::{
    ends_with_str, eq_ignore_ascii_case_str,
    eq_chars, find_char_from, lemma_find_from_bounds, to_lowercase_chars, words_of,
    after_char, before_char, ends_with, eq_ignore_ascii_case, lines, lines_from, lowercase, next_line,
    lines_of, starts_with_str, trim, trim_chars, words,
    append, append_str, chars_of, eq_str, replace, replace_str, split, split_chars, starts_with,
    slice_chars, starts_with_chars, string_of, vecs_view,
};

verus! {

// ----------------------------------------------------------------------------
// CPU tier
// ----------------------------------------------------------------------------

/// x86-64 micro-architecture level of the host, used to pick optimised repositories.
#[derive(Debug, Clone, Copy, PartialEq, Eq, Structural)]
pub enum CpuTier {
    V4,
    V3,
    Generic,
}

/// The instruction-set extensions that decide the CPU tier.
#[derive(Debug, Clone, Copy)]
pub struct CpuFeatures {
    pub avx512f: bool,
    pub avx512bw: bool,
    pub avx512cd: bool,
    pub avx512dq: bool,
    pub avx512vl: bool,
    pub avx2: bool,
    pub fma: bool,
    pub bmi1: bool,
    pub bmi2: bool,
}

/// The tier a feature set qualifies for: v4 needs the five AVX-512 extensions,
/// v3 needs AVX2, FMA, BMI1 and BMI2.
pub open spec fn spec_cpu_tier(f: CpuFeatures) -> CpuTier {
    if f.avx512f && f.avx512bw && f.avx512cd && f.avx512dq && f.avx512vl {
        CpuTier::V4
    } else if f.avx2 && f.fma && f.bmi1 && f.bmi2 {
        CpuTier::V3
    } else {
        CpuTier::Generic
    }
}

/// The name of a tier.
pub open spec fn tier_name(t: CpuTier) -> Seq<char> {
    match t {
        CpuTier::V4 => "v4"@,
        CpuTier::V3 => "v3"@,
        CpuTier::Generic => "generic"@,
    }
}

impl CpuTier {
    pub fn as_str(&self) -> (s: &'static str)
        ensures
            s@ == tier_name(*self),
    {
        match self {
            CpuTier::V4 => "v4",
            CpuTier::V3 => "v3",
            CpuTier::Generic => "generic",
        }
    }
}

/// Classifies the host CPU from the features it reports.
pub fn detect_cpu_tier(features: &CpuFeatures) -> (t: CpuTier)
    ensures
        t == spec_cpu_tier(*features),
{
    if features.avx512f && features.avx512bw && features.avx512cd && features.avx512dq
        && features.avx512vl {
        CpuTier::V4
    } else if features.avx2 && features.fma && features.bmi1 && features.bmi2 {
        CpuTier::V3
    } else {
        CpuTier::Generic
    }
}

/// The pacman architecture for a compilation target: `aarch64` is kept, every
/// other target is treated as `x86_64`.
pub open spec fn spec_host_arch(target_arch: Seq<char>) -> Seq<char> {
    if target_arch == "aarch64"@ {
        "aarch64"@
    } else {
        "x86_64"@
    }
}

/// The pacman architecture for the compilation target `target_arch`.
pub fn detect_host_arch(target_arch: &str) -> (a: String)
    ensures
        a@ == spec_host_arch(target_arch@),
{
    let t = chars_of(target_arch);
    if eq_str(&t, "aarch64") {
        String::from_str("aarch64")
    } else {
        String::from_str("x86_64")
    }
}

// ----------------------------------------------------------------------------
// Repositories and configuration
// ----------------------------------------------------------------------------

/// A sync repository: its name, mirror URLs and optional signature level.
#[derive(Debug, Clone)]
pub struct Repository {
    pub name: String,
    pub servers: Vec<String>,
    pub sig_level: Option<String>,
}

/// The abstract content of a [`Repository`].
#[verifier::ext_equal]
pub struct RepoV {
    pub name: Seq<char>,
    pub servers: Seq<Seq<char>>,
    pub sig_level: Option<Seq<char>>,
}

pub open spec fn strings_view(v: Seq<String>) -> Seq<Seq<char>> {
    v.map_values(|s: String| s@)
}

pub open spec fn opt_view(o: Option<String>) -> Option<Seq<char>> {
    match o {
        Some(s) => Some(s@),
        None => None,
    }
}

impl View for Repository {
    type V = RepoV;

    open spec fn view(&self) -> RepoV {
        RepoV {
            name: self.name@,
            servers: strings_view(self.servers@),
            sig_level: opt_view(self.sig_level),
        }
    }
}

pub open spec fn repos_view(v: Seq<Repository>) -> Seq<RepoV> {
    v.map_values(|r: Repository| r@)
}

/// The host's pacman settings. Paths are kept as the text they were written as.
#[derive(Debug, Clone)]
pub struct PacmanConfig {
    pub root_dir: String,
    pub db_path: String,
    pub cache_dirs: Vec<String>,
    pub hook_dirs: Vec<String>,
    pub gpg_dir: String,
    pub log_file: Option<String>,
    pub architecture: String,
    pub check_space: bool,
    pub color: bool,
    pub repositories: Vec<Repository>,
}

/// The abstract content of a [`PacmanConfig`].
#[verifier::ext_equal]
pub struct ConfigV {
    pub root_dir: Seq<char>,
    pub db_path: Seq<char>,
    pub cache_dirs: Seq<Seq<char>>,
    pub hook_dirs: Seq<Seq<char>>,
    pub gpg_dir: Seq<char>,
    pub log_file: Option<Seq<char>>,
    pub architecture: Seq<char>,
    pub check_space: bool,
    pub color: bool,
    pub repositories: Seq<RepoV>,
}

impl View for PacmanConfig {
    type V = ConfigV;

    open spec fn view(&self) -> ConfigV {
        ConfigV {
            root_dir: self.root_dir@,
            db_path: self.db_path@,
            cache_dirs: strings_view(self.cache_dirs@),
            hook_dirs: strings_view(self.hook_dirs@),
            gpg_dir: self.gpg_dir@,
            log_file: opt_view(self.log_file),
            architecture: self.architecture@,
            check_space: self.check_space,
            color: self.color,
            repositories: repos_view(self.repositories@),
        }
    }
}

/// pacman's built-in settings for a host of architecture `arch`.
pub open spec fn spec_default_config(arch: Seq<char>) -> ConfigV {
    ConfigV {
        root_dir: "/"@,
        db_path: "/var/lib/pacman"@,
        cache_dirs: seq!["/var/cache/pacman/pkg"@],
        hook_dirs: seq!["/etc/pacman.d/hooks"@, "/usr/share/libalpm/hooks"@],
        gpg_dir: "/etc/pacman.d/gnupg"@,
        log_file: Some("/var/log/pacman.log"@),
        architecture: arch,
        check_space: true,
        color: true,
        repositories: seq![],
    }
}

/// A one-element vector holding `s`.
fn one_string(s: String) -> (v: Vec<String>)
    ensures
        strings_view(v@) == seq![s@],
{
    let mut v: Vec<String> = Vec::new();
    v.push(s);
    assert(strings_view(v@) =~= seq![s@]);
    v
}

impl PacmanConfig {
    /// pacman's built-in settings for a host of architecture `arch`.
    pub fn defaults(arch: &str) -> (c: PacmanConfig)
        ensures
            c@ == spec_default_config(arch@),
    {
        let mut hooks: Vec<String> = Vec::new();
        hooks.push(String::from_str("/etc/pacman.d/hooks"));
        hooks.push(String::from_str("/usr/share/libalpm/hooks"));
        let c = PacmanConfig {
            root_dir: String::from_str("/"),
            db_path: String::from_str("/var/lib/pacman"),
            cache_dirs: one_string(String::from_str("/var/cache/pacman/pkg")),
            hook_dirs: hooks,
            gpg_dir: String::from_str("/etc/pacman.d/gnupg"),
            log_file: Some(String::from_str("/var/log/pacman.log")),
            architecture: String::from_str(arch),
            check_space: true,
            color: true,
            repositories: Vec::new(),
        };
        assert(strings_view(c.hook_dirs@) =~= seq![
            "/etc/pacman.d/hooks"@,
            "/usr/share/libalpm/hooks"@,
        ]);
        assert(repos_view(c.repositories@) =~= Seq::<RepoV>::empty());
        c
    }
}

// ----------------------------------------------------------------------------
// Variable expansion
// ----------------------------------------------------------------------------

/// `url` with `$repo` replaced by the repository name, then `$arch` by the architecture.
pub open spec fn spec_expand(url: Seq<char>, repo: Seq<char>, arch: Seq<char>) -> Seq<char> {
    replace(replace(url, "$repo"@, repo), "$arch"@, arch)
}

proof fn lemma_var_literals()
    ensures
        "$repo"@.len() == 5,
        "$arch"@.len() == 5,
{
    reveal_strlit("$repo");
    reveal_strlit("$arch");
}

/// Substitutes `$repo` and `$arch` in a mirror URL template.
pub fn expand_variables(url: &[char], repo: &[char], arch: &[char]) -> (r: Vec<char>)
    ensures
        r@ == spec_expand(url@, repo@, arch@),
{
    proof {
        lemma_var_literals();
    }
    let a = replace_str(url, "$repo", repo);
    replace_str(&a, "$arch", arch)
}

/// [`expand_variables`] on strings.
pub fn expand_variables_str(url: &str, repo: &str, arch: &str) -> (r: String)
    ensures
        r@ == spec_expand(url@, repo@, arch@),
{
    let u = chars_of(url);
    let rp = chars_of(repo);
    let ar = chars_of(arch);
    let e = expand_variables(&u, &rp, &ar);
    string_of(&e)
}


// ----------------------------------------------------------------------------
// Repository list maintenance
// ----------------------------------------------------------------------------

/// `c` with its repository list replaced by `rs`.
pub open spec fn with_repos(c: ConfigV, rs: Seq<RepoV>) -> ConfigV {
    ConfigV { repositories: rs, ..c }
}

/// Some repository in `rs` is called `name`.
pub open spec fn has_repo(rs: Seq<RepoV>, name: Seq<char>) -> bool {
    exists|i: int| 0 <= i < rs.len() && rs[i].name == name
}

/// The mirror template used for the standard Arch repositories.
pub open spec fn upstream_template() -> Seq<char> {
    "https://geo.mirror.pkgbuild.com/$repo/os/$arch"@
}

/// The standard Arch repository `name` served from the geo mirror.
pub open spec fn upstream_repo(name: Seq<char>, arch: Seq<char>) -> RepoV {
    RepoV {
        name,
        servers: seq![spec_expand(upstream_template(), name, arch)],
        sig_level: None,
    }
}

/// `rs` with the upstream repository `name` appended unless one of that name exists.
pub open spec fn add_upstream(rs: Seq<RepoV>, name: Seq<char>, arch: Seq<char>) -> Seq<RepoV> {
    if has_repo(rs, name) {
        rs
    } else {
        rs.push(upstream_repo(name, arch))
    }
}

/// `rs` with `core`, `extra` and `multilib` present, each added at the end when missing.
pub open spec fn spec_ensure_upstream(rs: Seq<RepoV>, arch: Seq<char>) -> Seq<RepoV> {
    add_upstream(add_upstream(add_upstream(rs, "core"@, arch), "extra"@, arch), "multilib"@, arch)
}

/// Some repository in `rs` has a name starting with `cachyos`.
pub open spec fn has_cachy(rs: Seq<RepoV>) -> bool {
    exists|i: int| 0 <= i < rs.len() && starts_with(rs[i].name, "cachyos"@)
}

/// A tier-optimised CachyOS repository with its two mirrors.
pub open spec fn tier_repo(name: Seq<char>, mirror: Seq<char>, geo: Seq<char>, arch: Seq<char>) -> RepoV {
    RepoV { name, servers: seq![mirror, geo + arch], sig_level: None }
}

/// The generic CachyOS repository.
pub open spec fn generic_cachy_repo(arch: Seq<char>) -> RepoV {
    RepoV {
        name: "cachyos"@,
        servers: seq![
            "https://mirror.cachyos.org/repo/"@ + arch + "/cachyos"@,
            "https://geo.mirror.pkgbuild.com/cachyos/cachyos/os/"@ + arch,
        ],
        sig_level: None,
    }
}

/// The CachyOS repositories for a CPU tier, in priority order.
pub open spec fn cachy_repos(tier: CpuTier, arch: Seq<char>) -> Seq<RepoV> {
    match tier {
        CpuTier::V4 => seq![
            tier_repo(
                "cachyos-v4"@,
                "https://mirror.cachyos.org/repo/x86_64_v4/cachyos-v4"@,
                "https://geo.mirror.pkgbuild.com/cachyos-v4/cachyos-v4/os/"@,
                arch,
            ),
            tier_repo(
                "cachyos-extra-v4"@,
                "https://mirror.cachyos.org/repo/x86_64_v4/cachyos-extra-v4"@,
                "https://geo.mirror.pkgbuild.com/cachyos-v4/cachyos-extra-v4/os/"@,
                arch,
            ),
            tier_repo(
                "cachyos-core-v4"@,
                "https://mirror.cachyos.org/repo/x86_64_v4/cachyos-core-v4"@,
                "https://geo.mirror.pkgbuild.com/cachyos-v4/cachyos-core-v4/os/"@,
                arch,
            ),
            generic_cachy_repo(arch),
        ],
        CpuTier::V3 => seq![
            tier_repo(
                "cachyos-v3"@,
                "https://mirror.cachyos.org/repo/x86_64_v3/cachyos-v3"@,
                "https://geo.mirror.pkgbuild.com/cachyos-v3/cachyos-v3/os/"@,
                arch,
            ),
            tier_repo(
                "cachyos-extra-v3"@,
                "https://mirror.cachyos.org/repo/x86_64_v3/cachyos-extra-v3"@,
                "https://geo.mirror.pkgbuild.com/cachyos-v3/cachyos-extra-v3/os/"@,
                arch,
            ),
            tier_repo(
                "cachyos-core-v3"@,
                "https://mirror.cachyos.org/repo/x86_64_v3/cachyos-core-v3"@,
                "https://geo.mirror.pkgbuild.com/cachyos-v3/cachyos-core-v3/os/"@,
                arch,
            ),
            generic_cachy_repo(arch),
        ],
        CpuTier::Generic => seq![generic_cachy_repo(arch)],
    }
}

/// `rs` with the CachyOS repositories for `tier` placed in front, unless a
/// CachyOS repository is already configured.
pub open spec fn spec_inject_cachy(rs: Seq<RepoV>, tier: CpuTier, arch: Seq<char>) -> Seq<RepoV> {
    if has_cachy(rs) {
        rs
    } else {
        cachy_repos(tier, arch) + rs
    }
}

/// `rs` without the repositories whose name starts with `cachyos`.
pub open spec fn without_cachy(rs: Seq<RepoV>) -> Seq<RepoV> {
    rs.filter(|r: RepoV| !starts_with(r.name, "cachyos"@))
}

/// Whether some repository in `v` is called `name`.
fn has_repo_named(v: &Vec<Repository>, name: &[char]) -> (b: bool)
    ensures
        b == has_repo(repos_view(v@), name@),
{
    let mut i: usize = 0;
    while i < v.len()
        invariant
            i <= v.len(),
            forall|k: int| 0 <= k < i ==> repos_view(v@)[k].name != name@,
        decreases v.len() - i,
    {
        let n = chars_of(v[i].name.as_str());
        if n.len() == name.len() && starts_with_chars(&n, name) {
            assert(n@.take(name@.len() as int) == n@);
            assert(repos_view(v@)[i as int].name == name@);
            return true;
        }
        assert(n@ != name@) by {
            if n@ == name@ {
                assert(n@.take(name@.len() as int) == n@);
            }
        }
        i = i + 1;
    }
    false
}

/// A repository without a signature level.
fn make_repo(name: String, servers: Vec<String>) -> (r: Repository)
    ensures
        r@ == (RepoV { name: name@, servers: strings_view(servers@), sig_level: None }),
{
    Repository { name, servers, sig_level: None }
}

/// A two-element vector.
fn two_strings(a: String, b: String) -> (v: Vec<String>)
    ensures
        strings_view(v@) == seq![a@, b@],
{
    let mut v: Vec<String> = Vec::new();
    v.push(a);
    v.push(b);
    assert(strings_view(v@) =~= seq![a@, b@]);
    v
}

/// `prefix` followed by `arch`.
fn prefixed(prefix: &str, arch: &[char]) -> (s: String)
    ensures
        s@ == prefix@ + arch@,
{
    let mut v = chars_of(prefix);
    append(&mut v, arch);
    string_of(&v)
}

/// A tier-optimised CachyOS repository.
fn make_tier_repo(name: &str, mirror: &str, geo: &str, arch: &[char]) -> (r: Repository)
    ensures
        r@ == tier_repo(name@, mirror@, geo@, arch@),
{
    make_repo(String::from_str(name), two_strings(String::from_str(mirror), prefixed(geo, arch)))
}

/// The generic CachyOS repository.
fn make_generic_cachy(arch: &[char]) -> (r: Repository)
    ensures
        r@ == generic_cachy_repo(arch@),
{
    let mut first = chars_of("https://mirror.cachyos.org/repo/");
    append(&mut first, arch);
    append_str(&mut first, "/cachyos");
    make_repo(
        String::from_str("cachyos"),
        two_strings(
            string_of(&first),
            prefixed("https://geo.mirror.pkgbuild.com/cachyos/cachyos/os/", arch),
        ),
    )
}

impl PacmanConfig {
    /// Appends the upstream repository `name` unless one of that name is configured.
    fn add_upstream_repository(&mut self, name: &str)
        ensures
            final(self)@ == with_repos(
                old(self)@,
                add_upstream(old(self)@.repositories, name@, old(self)@.architecture),
            ),
    {
        let n = chars_of(name);
        if !has_repo_named(&self.repositories, &n) {
            let arch = chars_of(self.architecture.as_str());
            let tmpl = chars_of("https://geo.mirror.pkgbuild.com/$repo/os/$arch");
            let url = expand_variables(&tmpl, &n, &arch);
            let repo = make_repo(String::from_str(name), one_string(string_of(&url)));
            let ghost before = repos_view(self.repositories@);
            self.repositories.push(repo);
            assert(repos_view(self.repositories@) =~= before.push(repo@));
        }
    }

    /// Ensures the standard Arch repositories `core`, `extra` and `multilib` are
    /// configured, appending each one that is missing.
    pub fn ensure_upstream_repositories(&mut self)
        ensures
            final(self)@ == with_repos(
                old(self)@,
                spec_ensure_upstream(old(self)@.repositories, old(self)@.architecture),
            ),
    {
        self.add_upstream_repository("core");
        self.add_upstream_repository("extra");
        self.add_upstream_repository("multilib");
    }

    /// Places the CachyOS repositories matching the CPU tier in front of the
    /// configured ones, unless a CachyOS repository is already configured.
    pub fn inject_cachy_repositories(&mut self, cpu_tier: CpuTier)
        ensures
            final(self)@ == with_repos(
                old(self)@,
                spec_inject_cachy(old(self)@.repositories, cpu_tier, old(self)@.architecture),
            ),
    {
        let prefix = chars_of("cachyos");
        let mut i: usize = 0;
        while i < self.repositories.len()
            invariant
                i <= self.repositories.len(),
                prefix@ == "cachyos"@,
                forall|k: int|
                    0 <= k < i ==> !starts_with(repos_view(self.repositories@)[k].name, "cachyos"@),
            decreases self.repositories.len() - i,
        {
            let n = chars_of(self.repositories[i].name.as_str());
            if starts_with_chars(&n, &prefix) {
                assert(starts_with(repos_view(self.repositories@)[i as int].name, "cachyos"@));
                return;
            }
            i = i + 1;
        }
        let arch = chars_of(self.architecture.as_str());
        let mut injected: Vec<Repository> = Vec::new();
        match cpu_tier {
            CpuTier::V4 => {
                injected.push(
                    make_tier_repo(
                        "cachyos-v4",
                        "https://mirror.cachyos.org/repo/x86_64_v4/cachyos-v4",
                        "https://geo.mirror.pkgbuild.com/cachyos-v4/cachyos-v4/os/",
                        &arch,
                    ),
                );
                injected.push(
                    make_tier_repo(
                        "cachyos-extra-v4",
                        "https://mirror.cachyos.org/repo/x86_64_v4/cachyos-extra-v4",
                        "https://geo.mirror.pkgbuild.com/cachyos-v4/cachyos-extra-v4/os/",
                        &arch,
                    ),
                );
                injected.push(
                    make_tier_repo(
                        "cachyos-core-v4",
                        "https://mirror.cachyos.org/repo/x86_64_v4/cachyos-core-v4",
                        "https://geo.mirror.pkgbuild.com/cachyos-v4/cachyos-core-v4/os/",
                        &arch,
                    ),
                );
            },
            CpuTier::V3 => {
                injected.push(
                    make_tier_repo(
                        "cachyos-v3",
                        "https://mirror.cachyos.org/repo/x86_64_v3/cachyos-v3",
                        "https://geo.mirror.pkgbuild.com/cachyos-v3/cachyos-v3/os/",
                        &arch,
                    ),
                );
                injected.push(
                    make_tier_repo(
                        "cachyos-extra-v3",
                        "https://mirror.cachyos.org/repo/x86_64_v3/cachyos-extra-v3",
                        "https://geo.mirror.pkgbuild.com/cachyos-v3/cachyos-extra-v3/os/",
                        &arch,
                    ),
                );
                injected.push(
                    make_tier_repo(
                        "cachyos-core-v3",
                        "https://mirror.cachyos.org/repo/x86_64_v3/cachyos-core-v3",
                        "https://geo.mirror.pkgbuild.com/cachyos-v3/cachyos-core-v3/os/",
                        &arch,
                    ),
                );
            },
            CpuTier::Generic => {},
        }
        injected.push(make_generic_cachy(&arch));
        assert(repos_view(injected@) =~= cachy_repos(cpu_tier, arch@));
        let ghost old_repos = repos_view(self.repositories@);
        injected.append(&mut self.repositories);
        self.repositories = injected;
        assert(repos_view(self.repositories@) =~= cachy_repos(cpu_tier, arch@) + old_repos);
    }
}


// ----------------------------------------------------------------------------
// Command-line overrides
// ----------------------------------------------------------------------------

/// The components of a path, without the empty and `.` parts that `Path` ignores.
pub open spec fn path_parts(p: Seq<char>) -> Seq<Seq<char>> {
    split(p, '/').filter(|x: Seq<char>| x.len() > 0 && x != "."@)
}

/// `Path::new(p) == Path::new("/var/lib/pacman")`: `p` is rooted and its
/// components are `var`, `lib` and `pacman`.
pub open spec fn is_default_db_path(p: Seq<char>) -> bool {
    p.len() > 0 && p[0] == '/' && path_parts(p) == seq!["var"@, "lib"@, "pacman"@]
}

/// `Path::join` with the relative path `rel`: a `/` is put between unless `base` is
/// empty or already ends with one.
pub open spec fn join_rel(base: Seq<char>, rel: Seq<char>) -> Seq<char> {
    if base.len() == 0 || base.last() == '/' {
        base + rel
    } else {
        base + "/"@ + rel
    }
}

/// The configuration with its root moved to `r`; a default database path follows
/// the root.
pub open spec fn apply_root(c: ConfigV, r: Seq<char>) -> ConfigV {
    ConfigV {
        root_dir: r,
        db_path: if is_default_db_path(c.db_path) {
            join_rel(r, "var/lib/pacman"@)
        } else {
            c.db_path
        },
        ..c
    }
}

pub open spec fn opt_str_view(o: Option<&str>) -> Option<Seq<char>> {
    match o {
        Some(s) => Some(s@),
        None => None,
    }
}

/// The configuration the engine runs with: `base` after the `--root` and `--dbpath`
/// overrides, with the upstream repositories ensured and the CachyOS repositories
/// injected, or removed when `no_cachy` is set.
pub open spec fn spec_load(
    base: ConfigV,
    root: Option<Seq<char>>,
    db: Option<Seq<char>>,
    no_cachy: bool,
    tier: CpuTier,
) -> ConfigV {
    let c1 = match root {
        Some(r) => apply_root(base, r),
        None => base,
    };
    let c2 = match db {
        Some(d) => ConfigV { db_path: d, ..c1 },
        None => c1,
    };
    let c3 = with_repos(c2, spec_ensure_upstream(c2.repositories, c2.architecture));
    if no_cachy {
        with_repos(c3, without_cachy(c3.repositories))
    } else {
        with_repos(c3, spec_inject_cachy(c3.repositories, tier, c3.architecture))
    }
}

/// The components of the path `v` that `Path` keeps (no empty or `.` parts).
pub fn path_parts_of(v: &[char]) -> (kept: Vec<Vec<char>>)
    ensures
        vecs_view(kept@) == path_parts(v@),
{
    let pieces = split_chars(v, '/');
    let ghost all = vecs_view(pieces@);
    let mut kept: Vec<Vec<char>> = Vec::new();
    let mut i: usize = 0;
    while i < pieces.len()
        invariant
            i <= pieces.len(),
            all == vecs_view(pieces@),
            all == split(v@, '/'),
            vecs_view(kept@) == all.take(i as int).filter(
                |x: Seq<char>| x.len() > 0 && x != "."@,
            ),
        decreases pieces.len() - i,
    {
        let ghost before = vecs_view(kept@);
        proof {
            reveal_with_fuel(Seq::filter, 1);
            assert(all.take(i + 1).drop_last() == all.take(i as int));
        }
        if pieces[i].len() > 0 && !eq_str(&pieces[i], ".") {
            assert(pieces@[i as int]@ == all[i as int]);
            kept.push(slice_chars(&pieces[i], 0, pieces[i].len()));
            assert(pieces@[i as int]@.subrange(0, pieces@[i as int]@.len() as int) == pieces@[i as int]@);
            assert(vecs_view(kept@) == before.push(all[i as int]));
        }
        i = i + 1;
    }
    assert(all.take(pieces.len() as int) == all);
    kept
}

/// Whether the rooted path `p` has exactly the components `a`, `b`, `c`.
pub fn is_rooted_path3(p: &str, a: &str, b: &str, c: &str) -> (r: bool)
    ensures
        r == (p@.len() > 0 && p@[0] == '/' && path_parts(p@) == seq![a@, b@, c@]),
{
    let v = chars_of(p);
    if v.len() == 0 || v[0] != '/' {
        return false;
    }
    let kept = path_parts_of(&v);
    if kept.len() != 3 {
        assert(vecs_view(kept@).len() != seq![a@, b@, c@].len());
        return false;
    }
    let r = eq_str(&kept[0], a) && eq_str(&kept[1], b) && eq_str(&kept[2], c);
    assert(r ==> vecs_view(kept@) =~= seq![a@, b@, c@]);
    assert(vecs_view(kept@) == seq![a@, b@, c@] ==> {
        &&& kept@[0]@ == a@
        &&& kept@[1]@ == b@
        &&& kept@[2]@ == c@
    });
    r
}

/// Whether `p` names `/var/lib/pacman`, component by component.
fn is_default_db_path_exec(p: &str) -> (b: bool)
    ensures
        b == is_default_db_path(p@),
{
    is_rooted_path3(p, "var", "lib", "pacman")
}

/// `Path::new(base).join(rel)` for a relative `rel`.
pub fn join_rel_exec(base: &str, rel: &str) -> (s: String)
    ensures
        s@ == join_rel(base@, rel@),
{
    let mut v = chars_of(base);
    proof {
        reveal_strlit("/");
    }
    if v.len() > 0 && v[v.len() - 1] != '/' {
        v.push('/');
    }
    append_str(&mut v, rel);
    string_of(&v)
}

impl PacmanConfig {
    /// Removes every repository whose name starts with `cachyos`.
    fn remove_cachy_repositories(&mut self)
        ensures
            final(self)@ == with_repos(old(self)@, without_cachy(old(self)@.repositories)),
    {
        let ghost orig = repos_view(self.repositories@);
        let mut rest = Vec::new();
        rest.append(&mut self.repositories);
        let prefix = chars_of("cachyos");
        let mut kept: Vec<Repository> = Vec::new();
        let ghost mut k: int = 0;
        assert(orig.skip(0) == orig);
        while rest.len() > 0
            invariant
                0 <= k <= orig.len(),
                repos_view(rest@) == orig.skip(k),
                repos_view(kept@) == without_cachy(orig.take(k)),
                prefix@ == "cachyos"@,
                self@ == with_repos(old(self)@, Seq::<RepoV>::empty()),
            decreases rest.len(),
        {
            let ghost rest_before = rest@;
            assert(repos_view(rest_before).len() == rest_before.len());
            assert(repos_view(rest_before)[0] == orig[k]);
            let r = rest.remove(0);
            proof {
                assert(r@ == orig[k]);
                assert(rest@ == rest_before.remove(0));
                assert forall|j: int| 0 <= j < rest@.len() implies repos_view(rest@)[j] == orig.skip(
                    k + 1,
                )[j] by {
                    assert(rest@[j] == rest_before[j + 1]);
                    assert(repos_view(rest_before)[j + 1] == orig.skip(k)[j + 1]);
                }
                assert(repos_view(rest@) =~= orig.skip(k + 1));
                reveal_with_fuel(Seq::filter, 1);
                assert(orig.take(k + 1).drop_last() == orig.take(k));
            }
            let n = chars_of(r.name.as_str());
            if !starts_with_chars(&n, &prefix) {
                let ghost before = repos_view(kept@);
                kept.push(r);
                assert(repos_view(kept@) == before.push(r@));
            }
            proof {
                k = k + 1;
            }
        }
        assert(orig.take(k) == orig);
        self.repositories = kept;
    }

    /// Applies the command-line overrides to `base` and completes its repository
    /// list: the standard Arch repositories are ensured and the CachyOS
    /// repositories for `cpu_tier` are injected, or removed when `no_cachy` is set.
    pub fn load_default(
        base: PacmanConfig,
        cli_root: Option<&str>,
        cli_dbpath: Option<&str>,
        no_cachy: bool,
        cpu_tier: CpuTier,
    ) -> (c: PacmanConfig)
        ensures
            c@ == spec_load(base@, opt_str_view(cli_root), opt_str_view(cli_dbpath), no_cachy, cpu_tier),
    {
        let mut config = base;
        if let Some(r) = cli_root {
            if is_default_db_path_exec(config.db_path.as_str()) {
                config.db_path = join_rel_exec(r, "var/lib/pacman");
            }
            config.root_dir = String::from_str(r);
        }
        if let Some(db) = cli_dbpath {
            config.db_path = String::from_str(db);
        }
        config.ensure_upstream_repositories();
        if no_cachy {
            config.remove_cachy_repositories();
        } else {
            config.inject_cachy_repositories(cpu_tier);
        }
        config
    }
}


// ----------------------------------------------------------------------------
// Mirrorlists
// ----------------------------------------------------------------------------

/// The server a mirrorlist line contributes, if any: `Server = URL` or `Server=URL`
/// after trimming, with the URL trimmed and its variables expanded.
pub open spec fn mirror_line(line: Seq<char>, repo: Seq<char>, arch: Seq<char>) -> Option<Seq<char>> {
    let t = trim(line);
    if starts_with(t, "#"@) || t.len() == 0 {
        None
    } else if starts_with(t, "Server = "@) {
        Some(spec_expand(trim(t.skip("Server = "@.len() as int)), repo, arch))
    } else if starts_with(t, "Server="@) {
        Some(spec_expand(trim(t.skip("Server="@.len() as int)), repo, arch))
    } else {
        None
    }
}

/// The servers contributed by a sequence of mirrorlist lines, in order.
pub open spec fn mirror_servers(ls: Seq<Seq<char>>, repo: Seq<char>, arch: Seq<char>) -> Seq<
    Seq<char>,
>
    decreases ls.len(),
{
    if ls.len() == 0 {
        seq![]
    } else {
        match mirror_line(ls[0], repo, arch) {
            Some(u) => seq![u] + mirror_servers(ls.drop_first(), repo, arch),
            None => mirror_servers(ls.drop_first(), repo, arch),
        }
    }
}

/// The servers a mirrorlist file names for repository `repo` on `arch`.
pub open spec fn spec_mirrorlist(content: Seq<char>, repo: Seq<char>, arch: Seq<char>) -> Seq<
    Seq<char>,
> {
    mirror_servers(lines(content), repo, arch)
}

/// The server one mirrorlist line contributes.
fn mirror_line_exec(line: &[char], repo: &[char], arch: &[char]) -> (r: Option<Vec<char>>)
    ensures
        match r {
            Some(u) => mirror_line(line@, repo@, arch@) == Some(u@),
            None => mirror_line(line@, repo@, arch@).is_none(),
        },
{
    let t = trim_chars(line);
    if starts_with_str(&t, "#") || t.len() == 0 {
        return None;
    }
    let p1 = chars_of("Server = ");
    let p2 = chars_of("Server=");
    if starts_with_chars(&t, &p1) {
        let rest = slice_chars(&t, p1.len(), t.len());
        assert(rest@ == t@.skip(p1@.len() as int));
        let u = trim_chars(&rest);
        Some(expand_variables(&u, repo, arch))
    } else if starts_with_chars(&t, &p2) {
        let rest = slice_chars(&t, p2.len(), t.len());
        assert(rest@ == t@.skip(p2@.len() as int));
        let u = trim_chars(&rest);
        Some(expand_variables(&u, repo, arch))
    } else {
        None
    }
}

/// The servers named by a mirrorlist for repository `repo` on `arch`.
pub fn parse_mirrorlist_chars(content: &[char], repo: &[char], arch: &[char]) -> (r: Vec<String>)
    ensures
        strings_view(r@) == spec_mirrorlist(content@, repo@, arch@),
{
    let mut out: Vec<String> = Vec::new();
    let mut pos: usize = 0;
    while pos < content.len()
        invariant
            pos <= content.len(),
            strings_view(out@) + mirror_servers(lines_from(content@, pos as int), repo@, arch@)
                == spec_mirrorlist(content@, repo@, arch@),
        decreases content.len() - pos,
    {
        let (e, next) = next_line(content, pos);
        let line = slice_chars(content, pos, e);
        let ghost ls = lines_from(content@, pos as int);
        let ghost rest = lines_from(content@, next as int);
        assert(ls[0] == line@ && ls.drop_first() == rest);
        let ghost before = strings_view(out@);
        match mirror_line_exec(&line, repo, arch) {
            Some(u) => {
                out.push(string_of(&u));
                assert(strings_view(out@) == before.push(u@));
                assert(before + mirror_servers(ls, repo@, arch@) == strings_view(out@)
                    + mirror_servers(rest, repo@, arch@));
            },
            None => {},
        }
        pos = next;
    }
    assert(lines_from(content@, pos as int) == Seq::<Seq<char>>::empty());
    assert(strings_view(out@) + Seq::<Seq<char>>::empty() == strings_view(out@));
    out
}

/// The servers a mirrorlist text names for repository `repo` on `arch`.
pub fn parse_mirrorlist(content: &str, repo: &str, arch: &str) -> (r: Vec<String>)
    ensures
        strings_view(r@) == spec_mirrorlist(content@, repo@, arch@),
{
    let c = chars_of(content);
    let rp = chars_of(repo);
    let ar = chars_of(arch);
    parse_mirrorlist_chars(&c, &rp, &ar)
}

// ----------------------------------------------------------------------------
// pacman.conf
// ----------------------------------------------------------------------------

/// A file that an `Include` directive may name, with its text.
#[derive(Debug, Clone)]
pub struct IncludedFile {
    pub path: String,
    pub content: String,
}

pub open spec fn files_view(v: Seq<IncludedFile>) -> Seq<(Seq<char>, Seq<char>)> {
    v.map_values(|f: IncludedFile| (f.path@, f.content@))
}

/// The section a `pacman.conf` line belongs to.
#[derive(Debug, Clone, Copy, PartialEq, Eq, Structural)]
pub enum Section {
    Top,
    Options,
    Repo,
}

/// The parser's state between lines: the configuration so far, the current
/// section and the repository being read.
#[verifier::ext_equal]
pub struct ParseV {
    pub cfg: ConfigV,
    pub section: Section,
    pub repo: Option<RepoV>,
}

/// Index of the first file named `path`, or `files.len()`.
pub open spec fn find_file(files: Seq<(Seq<char>, Seq<char>)>, path: Seq<char>) -> int
    decreases files.len(),
{
    if files.len() == 0 {
        0
    } else if files[0].0 == path {
        0
    } else {
        1 + find_file(files.drop_first(), path)
    }
}

/// Index of the first `p` in `ps`, or `ps.len()`.
pub open spec fn find_path(ps: Seq<Seq<char>>, p: Seq<char>) -> int
    decreases ps.len(),
{
    if ps.len() == 0 {
        0
    } else if ps[0] == p {
        0
    } else {
        1 + find_path(ps.drop_first(), p)
    }
}

/// The configuration with the repository being read added, when it has servers.
pub open spec fn close_repo(cfg: ConfigV, repo: Option<RepoV>) -> ConfigV {
    match repo {
        Some(r) => if r.servers.len() > 0 {
            with_repos(cfg, cfg.repositories.push(r))
        } else {
            cfg
        },
        None => cfg,
    }
}

/// The key of a `key = value` line: the trimmed text before the first `=`.
pub open spec fn line_key(t: Seq<char>) -> Seq<char> {
    trim(before_char(t, '='))
}

/// The value of a `key = value` line: the trimmed text after the first `=`, or
/// nothing when there is no `=`.
pub open spec fn line_value(t: Seq<char>) -> Seq<char> {
    match after_char(t, '=') {
        Some(a) => trim(a),
        None => seq![],
    }
}

/// The configuration `content` describes, starting from the defaults for `host`.
/// `Include` directives read from `files`; those in `[options]` are followed only
/// for paths in `open_paths`, each of which is closed while its own text is read.
pub open spec fn parse_conf(
    content: Seq<char>,
    host: Seq<char>,
    files: Seq<(Seq<char>, Seq<char>)>,
    open_paths: Seq<Seq<char>>,
) -> ConfigV
    decreases open_paths.len(), 2nat, 0nat,
{
    let st = fold_conf(
        lines(content),
        ParseV { cfg: spec_default_config(host), section: Section::Top, repo: None },
        host,
        files,
        open_paths,
    );
    close_repo(st.cfg, st.repo)
}

/// The parser state after reading `ls` from state `st`.
pub open spec fn fold_conf(
    ls: Seq<Seq<char>>,
    st: ParseV,
    host: Seq<char>,
    files: Seq<(Seq<char>, Seq<char>)>,
    open_paths: Seq<Seq<char>>,
) -> ParseV
    decreases open_paths.len(), 1nat, ls.len(),
{
    if ls.len() == 0 {
        st
    } else {
        fold_conf(ls.drop_first(), step_conf(ls[0], st, host, files, open_paths), host, files, open_paths)
    }
}

/// The parser state after reading one line.
pub open spec fn step_conf(
    line: Seq<char>,
    st: ParseV,
    host: Seq<char>,
    files: Seq<(Seq<char>, Seq<char>)>,
    open_paths: Seq<Seq<char>>,
) -> ParseV
    decreases open_paths.len(), 0nat, 1nat,
{
    let t = trim(line);
    if t.len() == 0 || starts_with(t, "#"@) {
        st
    } else if starts_with(t, "["@) && ends_with(t, "]"@) {
        let name = trim(t.subrange(1, t.len() - 1));
        let cfg = close_repo(st.cfg, st.repo);
        if eq_ignore_ascii_case(name, "options"@) {
            ParseV { cfg, section: Section::Options, repo: None }
        } else {
            ParseV {
                cfg,
                section: Section::Repo,
                repo: Some(RepoV { name, servers: seq![], sig_level: None }),
            }
        }
    } else {
        step_kv(lowercase(line_key(t)), line_value(t), st, host, files, open_paths)
    }
}

/// The parser state after a `key = value` line whose key lowercases to `key`.
pub open spec fn step_kv(
    key: Seq<char>,
    val: Seq<char>,
    st: ParseV,
    host: Seq<char>,
    files: Seq<(Seq<char>, Seq<char>)>,
    open_paths: Seq<Seq<char>>,
) -> ParseV
    decreases open_paths.len(), 0nat, 0nat,
{
    match st.section {
        Section::Top => st,
        Section::Options => {
            let c = st.cfg;
            let c2 = if key == "rootdir"@ {
                if val.len() > 0 { ConfigV { root_dir: val, ..c } } else { c }
            } else if key == "dbpath"@ {
                if val.len() > 0 { ConfigV { db_path: val, ..c } } else { c }
            } else if key == "cachedir"@ {
                if val.len() > 0 { ConfigV { cache_dirs: words(val), ..c } } else { c }
            } else if key == "architecture"@ {
                if val.len() > 0 && val != "auto"@ { ConfigV { architecture: val, ..c } } else { c }
            } else if key == "checkspace"@ {
                ConfigV { check_space: true, ..c }
            } else if key == "color"@ {
                ConfigV { color: true, ..c }
            } else if key == "include"@ {
                let k = find_path(open_paths, val);
                let j = find_file(files, val);
                if val.len() > 0 && 0 <= k < open_paths.len() && 0 <= j < files.len() {
                    let inc = parse_conf(files[j].1, host, files, open_paths.remove(k));
                    with_repos(c, c.repositories + inc.repositories)
                } else {
                    c
                }
            } else {
                c
            };
            ParseV { cfg: c2, ..st }
        },
        Section::Repo => match st.repo {
            Some(r) => {
                let r2 = if key == "server"@ {
                    if val.len() > 0 {
                        RepoV { servers: r.servers.push(spec_expand(val, r.name, st.cfg.architecture)), ..r }
                    } else {
                        r
                    }
                } else if key == "siglevel"@ {
                    if val.len() > 0 { RepoV { sig_level: Some(val), ..r } } else { r }
                } else if key == "include"@ {
                    let j = find_file(files, val);
                    if val.len() > 0 && 0 <= j < files.len() {
                        RepoV {
                            servers: r.servers + spec_mirrorlist(files[j].1, r.name, st.cfg.architecture),
                            ..r
                        }
                    } else {
                        r
                    }
                } else {
                    r
                };
                ParseV { repo: Some(r2), ..st }
            },
            None => st,
        },
    }
}

/// The paths of a file table.
pub open spec fn file_paths(files: Seq<(Seq<char>, Seq<char>)>) -> Seq<Seq<char>> {
    files.map_values(|f: (Seq<char>, Seq<char>)| f.0)
}

/// The configuration `content` describes for a host of architecture `host`, reading
/// `Include` directives from `includes` (the files that exist, with their text).
pub open spec fn spec_parse_text(
    content: Seq<char>,
    host: Seq<char>,
    includes: Seq<(Seq<char>, Seq<char>)>,
) -> ConfigV {
    parse_conf(content, host, includes, file_paths(includes))
}

proof fn lemma_find_file(files: Seq<(Seq<char>, Seq<char>)>, path: Seq<char>, i: int)
    requires
        0 <= i <= files.len(),
        forall|k: int| 0 <= k < i ==> files[k].0 != path,
    ensures
        find_file(files, path) == i + find_file(files.skip(i), path),
    decreases i,
{
    if i > 0 {
        assert(files.skip(1) == files.drop_first());
        lemma_find_file(files.drop_first(), path, i - 1);
        assert(files.drop_first().skip(i - 1) == files.skip(i));
    } else {
        assert(files.skip(0) == files);
    }
}

proof fn lemma_find_path(ps: Seq<Seq<char>>, p: Seq<char>, i: int)
    requires
        0 <= i <= ps.len(),
        forall|k: int| 0 <= k < i ==> ps[k] != p,
    ensures
        find_path(ps, p) == i + find_path(ps.skip(i), p),
    decreases i,
{
    if i > 0 {
        assert(ps.skip(1) == ps.drop_first());
        lemma_find_path(ps.drop_first(), p, i - 1);
        assert(ps.drop_first().skip(i - 1) == ps.skip(i));
    } else {
        assert(ps.skip(0) == ps);
    }
}

fn find_file_exec(files: &Vec<IncludedFile>, path: &[char]) -> (j: usize)
    ensures
        j == find_file(files_view(files@), path@),
        j <= files.len(),
{
    let ghost fv = files_view(files@);
    let mut i: usize = 0;
    while i < files.len()
        invariant
            i <= files.len(),
            fv == files_view(files@),
            forall|k: int| 0 <= k < i ==> fv[k].0 != path@,
        decreases files.len() - i,
    {
        let fp = chars_of(files[i].path.as_str());
        if eq_chars(&fp, path) {
            proof {
                lemma_find_file(fv, path@, i as int);
            }
            return i;
        }
        i = i + 1;
    }
    proof {
        lemma_find_file(fv, path@, i as int);
    }
    i
}

fn find_path_exec(ps: &Vec<Vec<char>>, p: &[char]) -> (k: usize)
    ensures
        k == find_path(vecs_view(ps@), p@),
        k <= ps.len(),
{
    let ghost pv = vecs_view(ps@);
    let mut i: usize = 0;
    while i < ps.len()
        invariant
            i <= ps.len(),
            pv == vecs_view(ps@),
            forall|k: int| 0 <= k < i ==> pv[k] != p@,
        decreases ps.len() - i,
    {
        if eq_chars(&ps[i], p) {
            proof {
                lemma_find_path(pv, p@, i as int);
            }
            return i;
        }
        i = i + 1;
    }
    proof {
        lemma_find_path(pv, p@, i as int);
    }
    i
}

/// A copy of `ps` without its element at `k`.
fn without_index(ps: &Vec<Vec<char>>, k: usize) -> (r: Vec<Vec<char>>)
    requires
        k < ps.len(),
    ensures
        vecs_view(r@) == vecs_view(ps@).remove(k as int),
{
    let mut r: Vec<Vec<char>> = Vec::new();
    let mut i: usize = 0;
    while i < ps.len()
        invariant
            k < ps.len(),
            i <= ps.len(),
            vecs_view(r@) == (if i <= k {
                vecs_view(ps@).take(i as int)
            } else {
                vecs_view(ps@).remove(k as int).take(i - 1)
            }),
        decreases ps.len() - i,
    {
        if i != k {
            let ghost before = vecs_view(r@);
            let c = slice_chars(&ps[i], 0, ps[i].len());
            assert(ps@[i as int]@.subrange(0, ps@[i as int]@.len() as int) == ps@[i as int]@);
            r.push(c);
            assert(vecs_view(r@) == before.push(ps@[i as int]@));
        }
        i = i + 1;
    }
    r
}

/// The paths of the file table, as character vectors.
fn paths_of(files: &Vec<IncludedFile>) -> (r: Vec<Vec<char>>)
    ensures
        vecs_view(r@) == file_paths(files_view(files@)),
{
    let mut r: Vec<Vec<char>> = Vec::new();
    let mut i: usize = 0;
    while i < files.len()
        invariant
            i <= files.len(),
            vecs_view(r@) == file_paths(files_view(files@)).take(i as int),
        decreases files.len() - i,
    {
        let ghost before = vecs_view(r@);
        r.push(chars_of(files[i].path.as_str()));
        assert(vecs_view(r@) == before.push(file_paths(files_view(files@))[i as int]));
        i = i + 1;
    }
    r
}

/// Strings holding the given character vectors.
fn strings_of(vs: &Vec<Vec<char>>) -> (r: Vec<String>)
    ensures
        strings_view(r@) == vecs_view(vs@),
{
    let mut r: Vec<String> = Vec::new();
    let mut i: usize = 0;
    while i < vs.len()
        invariant
            i <= vs.len(),
            strings_view(r@) == vecs_view(vs@).take(i as int),
        decreases vs.len() - i,
    {
        let ghost before = strings_view(r@);
        r.push(string_of(&vs[i]));
        assert(strings_view(r@) == before.push(vecs_view(vs@)[i as int]));
        i = i + 1;
    }
    r
}

pub open spec fn opt_repo_view(o: Option<Repository>) -> Option<RepoV> {
    match o {
        Some(r) => Some(r@),
        None => None,
    }
}

pub open spec fn pstate(cfg: PacmanConfig, section: Section, repo: Option<Repository>) -> ParseV {
    ParseV { cfg: cfg@, section, repo: opt_repo_view(repo) }
}

/// Adds the repository being read to the configuration when it has servers.
fn close_repo_exec(cfg: &mut PacmanConfig, repo: Option<Repository>)
    ensures
        final(cfg)@ == close_repo(old(cfg)@, opt_repo_view(repo)),
{
    match repo {
        Some(r) => {
            if r.servers.len() > 0 {
                let ghost before = repos_view(cfg.repositories@);
                cfg.repositories.push(r);
                assert(repos_view(cfg.repositories@) == before.push(r@));
            }
        },
        None => {},
    }
}

/// The key and value of a `key = value` line.
fn key_value(t: &[char]) -> (r: (Vec<char>, Vec<char>))
    ensures
        r.0@ == lowercase(line_key(t@)),
        r.1@ == line_value(t@),
{
    let j = find_char_from(t, '=', 0);
    proof {
        lemma_find_from_bounds(t@, '=', 0);
    }
    let before = slice_chars(t, 0, j);
    let key = to_lowercase_chars(&trim_chars(&before));
    if j < t.len() {
        let after = slice_chars(t, j + 1, t.len());
        (key, trim_chars(&after))
    } else {
        (key, Vec::new())
    }
}

/// Applies an `[options]` line with key `key` and value `val`.
fn options_step(
    cfg: &mut PacmanConfig,
    key: &[char],
    val: &[char],
    host: &str,
    files: &Vec<IncludedFile>,
    open_paths: &Vec<Vec<char>>,
)
    ensures
        (ParseV { cfg: final(cfg)@, section: Section::Options, repo: None }) == step_kv(
            key@,
            val@,
            ParseV { cfg: old(cfg)@, section: Section::Options, repo: None },
            host@,
            files_view(files@),
            vecs_view(open_paths@),
        ),
    decreases vecs_view(open_paths@).len(), 0nat,
{
    if eq_str(key, "rootdir") {
        if val.len() > 0 {
            cfg.root_dir = string_of(val);
        }
    } else if eq_str(key, "dbpath") {
        if val.len() > 0 {
            cfg.db_path = string_of(val);
        }
    } else if eq_str(key, "cachedir") {
        if val.len() > 0 {
            let ws = words_of(val);
            cfg.cache_dirs = strings_of(&ws);
        }
    } else if eq_str(key, "architecture") {
        if val.len() > 0 && !eq_str(val, "auto") {
            cfg.architecture = string_of(val);
        }
    } else if eq_str(key, "checkspace") {
        cfg.check_space = true;
    } else if eq_str(key, "color") {
        cfg.color = true;
    } else if eq_str(key, "include") {
        let k = find_path_exec(open_paths, val);
        let j = find_file_exec(files, val);
        if val.len() > 0 && k < open_paths.len() && j < files.len() {
            let rest = without_index(open_paths, k);
            let content = chars_of(files[j].content.as_str());
            assert(files_view(files@)[j as int].1 == content@);
            let mut inc = parse_conf_exec(&content, host, files, &rest);
            let ghost before = repos_view(cfg.repositories@);
            let ghost added = repos_view(inc.repositories@);
            cfg.repositories.append(&mut inc.repositories);
            assert(repos_view(cfg.repositories@) =~= before + added);
        }
    }
}


/// Applies a `key = value` line of a repository section to `repo`.
fn repo_step(
    cfg: &PacmanConfig,
    repo: &mut Repository,
    key: &[char],
    val: &[char],
    files: &Vec<IncludedFile>,
    open_paths: &Vec<Vec<char>>,
    host: &str,
)
    ensures
        step_kv(
            key@,
            val@,
            ParseV { cfg: cfg@, section: Section::Repo, repo: Some(old(repo)@) },
            host@,
            files_view(files@),
            vecs_view(open_paths@),
        ) == (ParseV { cfg: cfg@, section: Section::Repo, repo: Some(final(repo)@) }),
{
    let name = chars_of(repo.name.as_str());
    let arch = chars_of(cfg.architecture.as_str());
    if eq_str(key, "server") {
        if val.len() > 0 {
            let url = expand_variables(val, &name, &arch);
            let ghost before = strings_view(repo.servers@);
            repo.servers.push(string_of(&url));
            assert(strings_view(repo.servers@) == before.push(url@));
        }
    } else if eq_str(key, "siglevel") {
        if val.len() > 0 {
            repo.sig_level = Some(string_of(val));
        }
    } else if eq_str(key, "include") {
        let j = find_file_exec(files, val);
        if val.len() > 0 && j < files.len() {
            let content = chars_of(files[j].content.as_str());
            assert(files_view(files@)[j as int].1 == content@);
            let mut more = parse_mirrorlist_chars(&content, &name, &arch);
            let ghost before = strings_view(repo.servers@);
            let ghost added = strings_view(more@);
            repo.servers.append(&mut more);
            assert(strings_view(repo.servers@) =~= before + added);
        }
    }
}

/// Applies one line of `pacman.conf` to the parser state.
fn step_conf_exec(
    line: &[char],
    cfg: PacmanConfig,
    section: Section,
    repo: Option<Repository>,
    host: &str,
    files: &Vec<IncludedFile>,
    open_paths: &Vec<Vec<char>>,
) -> (r: (PacmanConfig, Section, Option<Repository>))
    ensures
        pstate(r.0, r.1, r.2) == step_conf(
            line@,
            pstate(cfg, section, repo),
            host@,
            files_view(files@),
            vecs_view(open_paths@),
        ),
    decreases vecs_view(open_paths@).len(), 1nat,
{
    let t = trim_chars(line);
    if t.len() == 0 || starts_with_str(&t, "#") {
        return (cfg, section, repo);
    }
    if starts_with_str(&t, "[") && ends_with_str(&t, "]") {
        proof {
            reveal_strlit("[");
            reveal_strlit("]");
            assert("["@.len() == 1 && "["@[0] == '[');
            assert("]"@.len() == 1 && "]"@[0] == ']');
            assert(t@.take(1)[0] == t@[0]);
            assert(t@.skip(t@.len() - 1)[0] == t@[t@.len() - 1]);
            assert(t@[0] == '[');
            assert(t@[t@.len() - 1] == ']');
        }
        let inner = slice_chars(&t, 1, t.len() - 1);
        let name = trim_chars(&inner);
        let mut cfg = cfg;
        close_repo_exec(&mut cfg, repo);
        if eq_ignore_ascii_case_str(&name, "options") {
            return (cfg, Section::Options, None);
        } else {
            let r = Repository { name: string_of(&name), servers: Vec::new(), sig_level: None };
            assert(strings_view(r.servers@) =~= Seq::<Seq<char>>::empty());
            return (cfg, Section::Repo, Some(r));
        }
    }
    let (key, val) = key_value(&t);
    match section {
        Section::Top => (cfg, section, repo),
        Section::Options => {
            let mut cfg = cfg;
            options_step(&mut cfg, &key, &val, host, files, open_paths);
            (cfg, section, repo)
        },
        Section::Repo => {
            match repo {
                Some(r) => {
                    let mut r = r;
                    repo_step(&cfg, &mut r, &key, &val, files, open_paths, host);
                    (cfg, section, Some(r))
                },
                None => (cfg, section, None),
            }
        },
    }
}

/// The file an `Include = path` line names: a line that is not blank or a
/// comment, whose key lowercases to `include` and whose value is not empty.
pub open spec fn include_value(line: Seq<char>) -> Option<Seq<char>> {
    let t = trim(line);
    if t.len() == 0 || starts_with(t, "#"@) {
        None
    } else if lowercase(line_key(t)) == "include"@ && line_value(t).len() > 0 {
        Some(line_value(t))
    } else {
        None
    }
}

/// The files the `Include` lines among `ls` name, in order.
pub open spec fn include_targets_of(ls: Seq<Seq<char>>) -> Seq<Seq<char>>
    decreases ls.len(),
{
    if ls.len() == 0 {
        seq![]
    } else {
        let r = include_targets_of(ls.drop_last());
        match include_value(ls.last()) {
            Some(v) => r.push(v),
            None => r,
        }
    }
}

/// The files the `Include` lines of a configuration text name, in order: the
/// files to read before [`PacmanConfig::parse_text`].
pub fn include_targets(content: &str) -> (r: Vec<String>)
    ensures
        strings_view(r@) == include_targets_of(lines(content@)),
{
    let v = chars_of(content);
    let ls = lines_of(&v);
    let ghost lv = vecs_view(ls@);
    let mut out: Vec<String> = Vec::new();
    let mut i: usize = 0;
    assert(lv.take(0) =~= Seq::<Seq<char>>::empty());
    while i < ls.len()
        invariant
            i <= ls.len(),
            lv == vecs_view(ls@),
            lv == lines(content@),
            strings_view(out@) == include_targets_of(lv.take(i as int)),
        decreases ls.len() - i,
    {
        assert(lv.take(i + 1).drop_last() =~= lv.take(i as int));
        assert(lv.take(i + 1).last() == ls@[i as int]@);
        let t = trim_chars(&ls[i]);
        if t.len() > 0 && !starts_with_str(&t, "#") {
            let (key, val) = key_value(&t);
            if eq_str(&key, "include") && val.len() > 0 {
                let ghost b = strings_view(out@);
                out.push(string_of(&val));
                assert(strings_view(out@) =~= b.push(val@));
            }
        }
        i = i + 1;
    }
    assert(lv.take(i as int) =~= lv);
    out
}

/// The configuration `content` describes (see [`parse_conf`]).
fn parse_conf_exec(
    content: &[char],
    host: &str,
    files: &Vec<IncludedFile>,
    open_paths: &Vec<Vec<char>>,
) -> (c: PacmanConfig)
    ensures
        c@ == parse_conf(content@, host@, files_view(files@), vecs_view(open_paths@)),
    decreases vecs_view(open_paths@).len(), 2nat,
{
    let ghost fv = files_view(files@);
    let ghost ov = vecs_view(open_paths@);
    let ghost init = ParseV { cfg: spec_default_config(host@), section: Section::Top, repo: None };
    let mut cfg = PacmanConfig::defaults(host);
    let mut section = Section::Top;
    let mut repo: Option<Repository> = None;
    let mut pos: usize = 0;
    while pos < content.len()
        invariant
            pos <= content.len(),
            fv == files_view(files@),
            ov == vecs_view(open_paths@),
            fold_conf(lines(content@), init, host@, fv, ov) == fold_conf(
                lines_from(content@, pos as int),
                pstate(cfg, section, repo),
                host@,
                fv,
                ov,
            ),
        decreases content.len() - pos,
    {
        let (e, next) = next_line(content, pos);
        let line = slice_chars(content, pos, e);
        let ghost ls = lines_from(content@, pos as int);
        assert(ls[0] == line@ && ls.drop_first() == lines_from(content@, next as int));
        let (c2, s2, r2) = step_conf_exec(&line, cfg, section, repo, host, files, open_paths);
        cfg = c2;
        section = s2;
        repo = r2;
        pos = next;
    }
    assert(lines_from(content@, pos as int) == Seq::<Seq<char>>::empty());
    close_repo_exec(&mut cfg, repo);
    cfg
}

impl PacmanConfig {
    /// The configuration a `pacman.conf` text describes for a host of architecture
    /// `host_arch`. `includes` holds every file an `Include` directive may name that
    /// exists and could be read, with its text.
    pub fn parse_text(content: &str, host_arch: &str, includes: &Vec<IncludedFile>) -> (c: PacmanConfig)
        ensures
            c@ == spec_parse_text(content@, host_arch@, files_view(includes@)),
    {
        let v = chars_of(content);
        let paths = paths_of(includes);
        parse_conf_exec(&v, host_arch, includes, &paths)
    }
}

} // verus!
