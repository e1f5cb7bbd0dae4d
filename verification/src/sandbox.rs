//! The Bubblewrap build container: its pacman.conf, its mounts, its environment.

use vstd::prelude::*;
use crate::config::{is_rooted_path3, join_rel, join_rel_exec, path_parts, strings_view};
use crate::memory_guard::MemoryProfile;
use crate::text::{
    after_char, append, append_str, before_char, chars_of, contains, contains_str, decimal,
    decimal_chars, eq_ignore_ascii_case, eq_ignore_ascii_case_str, find_char_from, find_from,
    lemma_find_from_bounds, lines, lines_of, replace, replace_str, slice_chars, starts_with,
    starts_with_str, string_of, to_ascii_lower, to_ascii_lower_chars, trim, trim_chars, vecs_view,
};

verus! {

// ----------------------------------------------------------------------------
// The container's pacman.conf
// ----------------------------------------------------------------------------

/// The configuration used when the host has none.
pub open spec fn default_sandbox_conf() -> Seq<char> {
    "[options]\nRootDir = /\nDBPath = /var/lib/pacman/\nCacheDir = /var/cache/pacman/pkg/\nGPGDir = /etc/pacman.d/gnupg/\nArchitecture = auto\nSigLevel = Never\nLocalFileSigLevel = Never\nRemoteFileSigLevel = Never\n"@
}

/// An active `SigLevel` setting (not commented out).
pub open spec fn is_siglevel_line(l: Seq<char>) -> bool {
    let t = trim(l);
    let lower = to_ascii_lower(t);
    !(t.len() > 0 && t[0] == '#') && starts_with(lower, "siglevel"@) && contains(lower, "="@)
}

/// A `LocalFileSigLevel` setting, active or commented out.
pub open spec fn is_local_siglevel_line(l: Seq<char>) -> bool {
    let lower = to_ascii_lower(trim(l));
    (starts_with(lower, "localfilesiglevel"@) || starts_with(lower, "#localfilesiglevel"@)
        || starts_with(lower, "# localfilesiglevel"@)) && contains(lower, "="@)
}

/// A `RemoteFileSigLevel` setting, active or commented out.
pub open spec fn is_remote_siglevel_line(l: Seq<char>) -> bool {
    let lower = to_ascii_lower(trim(l));
    (starts_with(lower, "remotefilesiglevel"@) || starts_with(lower, "#remotefilesiglevel"@)
        || starts_with(lower, "# remotefilesiglevel"@)) && contains(lower, "="@)
}

/// A line with every signature level turned off.
pub open spec fn rewrite_line(l: Seq<char>) -> Seq<char> {
    if is_siglevel_line(l) {
        "SigLevel = Never"@
    } else if is_local_siglevel_line(l) {
        "LocalFileSigLevel = Never"@
    } else if is_remote_siglevel_line(l) {
        "RemoteFileSigLevel = Never"@
    } else {
        l
    }
}

/// Index of the first `[options]` header (any case, surrounding blanks ignored),
/// or the number of lines when there is none.
pub open spec fn options_index(ls: Seq<Seq<char>>) -> int
    decreases ls.len(),
{
    if ls.len() == 0 {
        0
    } else if eq_ignore_ascii_case(trim(ls[0]), "[options]"@) {
        0
    } else {
        1 + options_index(ls.drop_first())
    }
}

/// The lines joined with `\n` between them (`[String]::join("\n")`).
pub open spec fn join_lines(ls: Seq<Seq<char>>) -> Seq<char>
    decreases ls.len(),
{
    if ls.len() == 0 {
        seq![]
    } else if ls.len() == 1 {
        ls[0]
    } else {
        join_lines(ls.drop_last()) + "\n"@ + ls.last()
    }
}

/// Some line is an active `SigLevel` setting.
pub open spec fn has_sig_line(ls: Seq<Seq<char>>) -> bool {
    exists|k: int| 0 <= k < ls.len() && is_siglevel_line(#[trigger] ls[k])
}

/// Some line is a `LocalFileSigLevel` setting (and no `SigLevel` one).
pub open spec fn has_local_line(ls: Seq<Seq<char>>) -> bool {
    exists|k: int|
        0 <= k < ls.len() && !is_siglevel_line(#[trigger] ls[k]) && is_local_siglevel_line(ls[k])
}

/// Some line is a `RemoteFileSigLevel` setting (and neither of the others).
pub open spec fn has_remote_line(ls: Seq<Seq<char>>) -> bool {
    exists|k: int|
        0 <= k < ls.len() && !is_siglevel_line(#[trigger] ls[k]) && !is_local_siglevel_line(ls[k])
            && is_remote_siglevel_line(ls[k])
}

/// The `Never` settings that the lines lack, in the order `SigLevel`,
/// `LocalFileSigLevel`, `RemoteFileSigLevel`.
pub open spec fn missing_levels(ls: Seq<Seq<char>>) -> Seq<Seq<char>> {
    (if !has_sig_line(ls) { seq!["SigLevel = Never"@] } else { seq![] })
        + (if !has_local_line(ls) { seq!["LocalFileSigLevel = Never"@] } else { seq![] })
        + (if !has_remote_line(ls) { seq!["RemoteFileSigLevel = Never"@] } else { seq![] })
}

/// Each line of the host's configuration with its signature level set to `Never`.
pub open spec fn rewritten_lines(raw: Seq<char>) -> Seq<Seq<char>> {
    lines(raw).map_values(|l: Seq<char>| rewrite_line(l))
}

/// The lines of the container's pacman.conf for a non-blank host configuration:
/// the host's lines rewritten, and the `Never` settings they lack added just
/// under the first `[options]` header, or, when there is none, in a new
/// `[options]` section (followed by a blank line) at the top.
pub open spec fn sandbox_conf_lines(raw: Seq<char>) -> Seq<Seq<char>> {
    let mapped = rewritten_lines(raw);
    let extra = missing_levels(lines(raw));
    if extra.len() == 0 {
        mapped
    } else {
        let i = options_index(mapped);
        if i < mapped.len() {
            mapped.take(i + 1) + extra + mapped.skip(i + 1)
        } else {
            seq!["[options]"@] + extra + seq![Seq::<char>::empty()] + mapped
        }
    }
}

/// The host's pacman.conf with all signature checking turned off: every
/// signature-level line says `Never`, and the `SigLevel`, `LocalFileSigLevel`
/// and `RemoteFileSigLevel` lines it lacks are added under `[options]` (which is
/// created at the top when missing). A blank configuration gives
/// [`default_sandbox_conf`].
pub open spec fn spec_sandbox_conf(raw: Seq<char>) -> Seq<char> {
    if trim(raw).len() == 0 {
        default_sandbox_conf()
    } else {
        join_lines(sandbox_conf_lines(raw))
    }
}

proof fn lemma_options_index_bounds(ls: Seq<Seq<char>>)
    ensures
        0 <= options_index(ls) <= ls.len(),
        options_index(ls) < ls.len() ==> eq_ignore_ascii_case(trim(ls[options_index(ls)]), "[options]"@),
    decreases ls.len(),
{
    if ls.len() > 0 && !eq_ignore_ascii_case(trim(ls[0]), "[options]"@) {
        lemma_options_index_bounds(ls.drop_first());
    }
}

fn is_siglevel(l: &[char]) -> (b: bool)
    ensures
        b == is_siglevel_line(l@),
{
    let t = trim_chars(l);
    let lower = to_ascii_lower_chars(&t);
    !(t.len() > 0 && t[0] == '#') && starts_with_str(&lower, "siglevel") && contains_str(&lower, "=")
}

fn is_local_siglevel(l: &[char]) -> (b: bool)
    ensures
        b == is_local_siglevel_line(l@),
{
    let t = trim_chars(l);
    let lower = to_ascii_lower_chars(&t);
    (starts_with_str(&lower, "localfilesiglevel") || starts_with_str(&lower, "#localfilesiglevel")
        || starts_with_str(&lower, "# localfilesiglevel")) && contains_str(&lower, "=")
}

fn is_remote_siglevel(l: &[char]) -> (b: bool)
    ensures
        b == is_remote_siglevel_line(l@),
{
    let t = trim_chars(l);
    let lower = to_ascii_lower_chars(&t);
    (starts_with_str(&lower, "remotefilesiglevel") || starts_with_str(&lower, "#remotefilesiglevel")
        || starts_with_str(&lower, "# remotefilesiglevel")) && contains_str(&lower, "=")
}

/// Whether a line is an `[options]` section header.
fn is_options_header(l: &[char]) -> (b: bool)
    ensures
        b == eq_ignore_ascii_case(trim(l@), "[options]"@),
{
    let t = trim_chars(l);
    eq_ignore_ascii_case_str(&t, "[options]")
}

/// The characters of a literal.
fn lit(s: &str) -> (v: Vec<char>)
    ensures
        v@ == s@,
{
    chars_of(s)
}

/// `ls.join("\n")`.
pub fn join_with_newlines(ls: &Vec<Vec<char>>) -> (r: Vec<char>)
    ensures
        r@ == join_lines(vecs_view(ls@)),
{
    let ghost lv = vecs_view(ls@);
    let mut r: Vec<char> = Vec::new();
    let mut i: usize = 0;
    assert(lv.take(0) =~= Seq::<Seq<char>>::empty());
    while i < ls.len()
        invariant
            i <= ls.len(),
            lv == vecs_view(ls@),
            r@ == join_lines(lv.take(i as int)),
        decreases ls.len() - i,
    {
        assert(lv.take(i + 1).drop_last() == lv.take(i as int));
        assert(lv.take(i + 1).last() == ls@[i as int]@);
        if i > 0 {
            r.push('\n');
            proof {
                reveal_strlit("\n");
            }
        }
        append(&mut r, &ls[i]);
        proof {
            if i == 0 {
                assert(lv.take(1) =~= seq![lv[0]]);
            }
        }
        i = i + 1;
    }
    assert(lv.take(i as int) == lv);
    r
}

/// The pacman.conf for the build container: the host's configuration with
/// every signature check turned off.
pub fn generate_sandbox_pacman_conf(raw_conf: &str) -> (r: String)
    ensures
        r@ == spec_sandbox_conf(raw_conf@),
{
    let v = chars_of(raw_conf);
    let t = trim_chars(&v);
    if t.len() == 0 {
        return String::from_str(
            "[options]\nRootDir = /\nDBPath = /var/lib/pacman/\nCacheDir = /var/cache/pacman/pkg/\nGPGDir = /etc/pacman.d/gnupg/\nArchitecture = auto\nSigLevel = Never\nLocalFileSigLevel = Never\nRemoteFileSigLevel = Never\n",
        );
    }
    let ls = lines_of(&v);
    let ghost sl = lines(raw_conf@);
    let ghost mapped = rewritten_lines(raw_conf@);
    let mut out: Vec<Vec<char>> = Vec::new();
    let mut has_sig = false;
    let mut has_local = false;
    let mut has_remote = false;
    let mut i: usize = 0;
    while i < ls.len()
        invariant
            i <= ls.len(),
            sl == vecs_view(ls@),
            sl == lines(raw_conf@),
            mapped == sl.map_values(|l: Seq<char>| rewrite_line(l)),
            vecs_view(out@) == mapped.take(i as int),
            has_sig == exists|k: int| 0 <= k < i && is_siglevel_line(#[trigger] sl[k]),
            has_local == exists|k: int|
                0 <= k < i && !is_siglevel_line(#[trigger] sl[k]) && is_local_siglevel_line(sl[k]),
            has_remote == exists|k: int|
                0 <= k < i && !is_siglevel_line(#[trigger] sl[k]) && !is_local_siglevel_line(sl[k])
                    && is_remote_siglevel_line(sl[k]),
        decreases ls.len() - i,
    {
        let line = &ls[i];
        assert(sl[i as int] == line@);
        let ghost before = vecs_view(out@);
        let new_line: Vec<char> = if is_siglevel(line) {
            has_sig = true;
            lit("SigLevel = Never")
        } else if is_local_siglevel(line) {
            has_local = true;
            lit("LocalFileSigLevel = Never")
        } else if is_remote_siglevel(line) {
            has_remote = true;
            lit("RemoteFileSigLevel = Never")
        } else {
            let c = slice_chars(line, 0, line.len());
            assert(line@.subrange(0, line@.len() as int) == line@);
            c
        };
        assert(new_line@ == rewrite_line(sl[i as int]));
        out.push(new_line);
        assert(vecs_view(out@) == before.push(mapped[i as int]));
        assert(mapped.take(i + 1) == mapped.take(i as int).push(mapped[i as int]));
        i = i + 1;
    }
    assert(mapped.take(i as int) == mapped);
    assert(has_sig == has_sig_line(sl));
    assert(has_local == has_local_line(sl));
    assert(has_remote == has_remote_line(sl));
    let mut extra: Vec<Vec<char>> = Vec::new();
    if !has_sig {
        extra.push(lit("SigLevel = Never"));
    }
    if !has_local {
        extra.push(lit("LocalFileSigLevel = Never"));
    }
    if !has_remote {
        extra.push(lit("RemoteFileSigLevel = Never"));
    }
    assert(vecs_view(extra@) =~= missing_levels(sl));
    if extra.len() == 0 {
        let j = join_with_newlines(&out);
        return string_of(&j);
    }
    // Look for the [options] header.
    let mut k: usize = 0;
    assert(mapped.skip(0) == mapped);
    while k < out.len() && !is_options_header(&out[k])
        invariant
            k <= out.len(),
            vecs_view(out@) == mapped,
            options_index(mapped) == k + options_index(mapped.skip(k as int)),
        decreases out.len() - k,
    {
        assert(mapped.skip(k as int)[0] == out@[k as int]@);
        assert(mapped.skip(k as int).drop_first() == mapped.skip(k + 1));
        k = k + 1;
    }
    proof {
        if k < out.len() {
            assert(mapped.skip(k as int)[0] == out@[k as int]@);
        }
        lemma_options_index_bounds(mapped);
    }
    let ghost ev = vecs_view(extra@);
    let mut fin: Vec<Vec<char>> = Vec::new();
    if k < out.len() {
        assert(options_index(mapped) == k);
        push_lines(&mut fin, &out, 0, k + 1);
        push_lines(&mut fin, &extra, 0, extra.len());
        push_lines(&mut fin, &out, k + 1, out.len());
        assert(mapped.subrange(0, k + 1) == mapped.take(k + 1));
        assert(ev.subrange(0, ev.len() as int) == ev);
        assert(mapped.subrange(k + 1, mapped.len() as int) == mapped.skip(k + 1));
        assert(vecs_view(fin@) =~= mapped.take(k + 1) + ev + mapped.skip(k + 1));
    } else {
        fin.push(lit("[options]"));
        assert(vecs_view(fin@) =~= seq!["[options]"@]);
        push_lines(&mut fin, &extra, 0, extra.len());
        let ghost f1 = vecs_view(fin@);
        fin.push(Vec::new());
        assert(vecs_view(fin@) =~= f1.push(Seq::<char>::empty()));
        push_lines(&mut fin, &out, 0, out.len());
        assert(ev.subrange(0, ev.len() as int) == ev);
        assert(mapped.subrange(0, mapped.len() as int) == mapped);
        assert(vecs_view(fin@) =~= seq!["[options]"@] + ev + seq![Seq::<char>::empty()] + mapped);
    }
    let j = join_with_newlines(&fin);
    string_of(&j)
}

/// Appends the lines `src[from..to]` to `dst`.
fn push_lines(dst: &mut Vec<Vec<char>>, src: &Vec<Vec<char>>, from: usize, to: usize)
    requires
        from <= to <= src.len(),
    ensures
        vecs_view(final(dst)@) == vecs_view(old(dst)@) + vecs_view(src@).subrange(
            from as int,
            to as int,
        ),
{
    let ghost d0 = vecs_view(dst@);
    let mut m: usize = from;
    while m < to
        invariant
            from <= m <= to <= src.len(),
            vecs_view(dst@) == d0 + vecs_view(src@).subrange(from as int, m as int),
        decreases to - m,
    {
        let ghost before = vecs_view(dst@);
        let c = slice_chars(&src[m], 0, src[m].len());
        assert(src@[m as int]@.subrange(0, src@[m as int]@.len() as int) == src@[m as int]@);
        dst.push(c);
        assert(vecs_view(dst@) =~= before.push(src@[m as int]@));
        assert(vecs_view(src@).subrange(from as int, m + 1) =~= vecs_view(src@).subrange(
            from as int,
            m as int,
        ).push(src@[m as int]@));
        m = m + 1;
    }
}

// ----------------------------------------------------------------------------
// The keyring directory
// ----------------------------------------------------------------------------

/// The value of an active `GPGDir = ...` line (key compared ignoring ASCII case),
/// when it is not blank.
pub open spec fn gpgdir_value(l: Seq<char>) -> Option<Seq<char>> {
    let t = trim(l);
    if t.len() == 0 || t[0] == '#' {
        None
    } else {
        match after_char(t, '=') {
            Some(rest) => if eq_ignore_ascii_case(trim(before_char(t, '=')), "gpgdir"@) && trim(
                rest,
            ).len() > 0 {
                Some(trim(rest))
            } else {
                None
            },
            None => None,
        }
    }
}

/// The first `GPGDir` value of the lines.
pub open spec fn first_gpgdir(ls: Seq<Seq<char>>) -> Option<Seq<char>>
    decreases ls.len(),
{
    if ls.len() == 0 {
        None
    } else {
        match gpgdir_value(ls[0]) {
            Some(d) => Some(d),
            None => first_gpgdir(ls.drop_first()),
        }
    }
}

/// The keyring directory a pacman.conf names, `/etc/pacman.d/gnupg` by default.
pub open spec fn spec_gpg_dir(raw: Seq<char>) -> Seq<char> {
    match first_gpgdir(lines(raw)) {
        Some(d) => d,
        None => "/etc/pacman.d/gnupg"@,
    }
}

/// The keyring directory that the pacman configuration text names, or
/// `/etc/pacman.d/gnupg` when it names none.
pub fn detect_gpg_dir(raw_conf: &str) -> (r: String)
    ensures
        r@ == spec_gpg_dir(raw_conf@),
{
    let v = chars_of(raw_conf);
    let ls = lines_of(&v);
    let ghost sl = vecs_view(ls@);
    let mut i: usize = 0;
    assert(sl.skip(0) == sl);
    while i < ls.len()
        invariant
            i <= ls.len(),
            sl == vecs_view(ls@),
            first_gpgdir(lines(raw_conf@)) == first_gpgdir(sl.skip(i as int)),
        decreases ls.len() - i,
    {
        assert(sl.skip(i as int)[0] == ls@[i as int]@);
        assert(sl.skip(i as int).drop_first() == sl.skip(i + 1));
        let t = trim_chars(&ls[i]);
        if t.len() > 0 && t[0] != '#' {
            let j = find_char_from(&t, '=', 0);
            proof {
                lemma_find_from_bounds(t@, '=', 0);
            }
            if j < t.len() {
                let key = slice_chars(&t, 0, j);
                let rest = slice_chars(&t, j + 1, t.len());
                assert(key@ == t@.take(j as int));
                assert(rest@ == t@.skip(j + 1));
                let tk = trim_chars(&key);
                let tr = trim_chars(&rest);
                if eq_ignore_ascii_case_str(&tk, "gpgdir") && tr.len() > 0 {
                    return string_of(&tr);
                }
            }
        }
        i = i + 1;
    }
    assert(sl.skip(i as int).len() == 0);
    String::from_str("/etc/pacman.d/gnupg")
}

// ----------------------------------------------------------------------------
// The container
// ----------------------------------------------------------------------------

/// What a build in the container is given.
#[derive(Debug, Clone)]
pub struct SandboxConfig {
    pub build_dir: String,
    pub pkg_name: String,
    pub use_sccache: bool,
    pub use_mold: bool,
    pub jobs: usize,
    pub memory_profile: MemoryProfile,
}

/// A Bubblewrap container for one package build.
pub struct BubblewrapSandbox {
    pub config: SandboxConfig,
}

/// What the host offers the container, as found on the machine.
#[derive(Debug, Clone)]
pub struct HostLayout {
    /// The per-user cache directory (see [`dirs_cache_dir`]).
    pub cache_dir: String,
    /// The per-user binary directory (see [`dirs_local_bin`]).
    pub local_bin: String,
    pub local_bin_exists: bool,
    /// Whether the patched `makepkg` was written to [`SandboxPaths::makepkg_shim`].
    pub makepkg_shim_written: bool,
    /// The keyring directory the host's pacman.conf names.
    pub gpg_dir: String,
    pub gpg_dir_exists: bool,
}

/// The host paths a build uses.
#[derive(Debug, Clone)]
pub struct SandboxPaths {
    pub scratch_dir: String,
    pub shims_dir: String,
    pub bsdtar_shim: String,
    pub tar_shim: String,
    pub makepkg_shim: String,
    pub pacman_conf: String,
    pub sccache_workspace: String,
    pub host_cache_dir: String,
}

pub open spec fn scratch_dir(build_dir: Seq<char>) -> Seq<char> {
    join_rel(build_dir, ".tmp"@)
}

pub open spec fn shims_dir(build_dir: Seq<char>) -> Seq<char> {
    join_rel(scratch_dir(build_dir), "shims"@)
}

/// The host paths of a build in `build_dir` with the user cache in `cache_dir`.
pub fn sandbox_paths(build_dir: &str, cache_dir: &str) -> (p: SandboxPaths)
    ensures
        p.scratch_dir@ == scratch_dir(build_dir@),
        p.shims_dir@ == shims_dir(build_dir@),
        p.bsdtar_shim@ == join_rel(shims_dir(build_dir@), "bsdtar"@),
        p.tar_shim@ == join_rel(shims_dir(build_dir@), "tar"@),
        p.makepkg_shim@ == join_rel(shims_dir(build_dir@), "makepkg"@),
        p.pacman_conf@ == join_rel(scratch_dir(build_dir@), "pacman.conf"@),
        p.sccache_workspace@ == join_rel(build_dir@, ".sccache"@),
        p.host_cache_dir@ == join_rel(cache_dir@, "sccache"@),
{
    let scratch = join_rel_exec(build_dir, ".tmp");
    let shims = join_rel_exec(scratch.as_str(), "shims");
    SandboxPaths {
        bsdtar_shim: join_rel_exec(shims.as_str(), "bsdtar"),
        tar_shim: join_rel_exec(shims.as_str(), "tar"),
        makepkg_shim: join_rel_exec(shims.as_str(), "makepkg"),
        pacman_conf: join_rel_exec(scratch.as_str(), "pacman.conf"),
        sccache_workspace: join_rel_exec(build_dir, ".sccache"),
        host_cache_dir: join_rel_exec(cache_dir, "sccache"),
        scratch_dir: scratch,
        shims_dir: shims,
    }
}

/// The user cache directory: `$HOME/.cache/mimic`, or `/var/tmp/mimic-cache`
/// when `HOME` is not set.
pub fn dirs_cache_dir(home: Option<&str>) -> (d: String)
    ensures
        d@ == match home {
            Some(h) => join_rel(h@, ".cache/mimic"@),
            None => "/var/tmp/mimic-cache"@,
        },
{
    match home {
        Some(h) => join_rel_exec(h, ".cache/mimic"),
        None => String::from_str("/var/tmp/mimic-cache"),
    }
}

/// The user binary directory: `$HOME/.local/bin`, or `/usr/local/bin` when `HOME`
/// is not set.
pub fn dirs_local_bin(home: Option<&str>) -> (d: String)
    ensures
        d@ == match home {
            Some(h) => join_rel(h@, ".local/bin"@),
            None => "/usr/local/bin"@,
        },
{
    match home {
        Some(h) => join_rel_exec(h, ".local/bin"),
        None => String::from_str("/usr/local/bin"),
    }
}

/// The shim that runs `bsdtar` without restoring file owners.
pub fn bsdtar_shim_script() -> (s: &'static str)
    ensures
        s@ == "#!/bin/sh\nexec /usr/bin/bsdtar --no-same-owner \"$@\"\n"@,
{
    "#!/bin/sh\nexec /usr/bin/bsdtar --no-same-owner \"$@\"\n"
}

/// The shim that runs `tar` without restoring file owners.
pub fn tar_shim_script() -> (s: &'static str)
    ensures
        s@ == "#!/bin/sh\nexec /usr/bin/tar --no-same-owner \"$@\"\n"@,
{
    "#!/bin/sh\nexec /usr/bin/tar --no-same-owner \"$@\"\n"
}

/// `makepkg` with its refusal to run as root disabled (the container maps the
/// builder to uid 0).
pub fn patch_makepkg(content: &str) -> (s: String)
    ensures
        s@ == replace(content@, "(( EUID == 0 ))"@, "(( EUID == 99999 ))"@),
{
    let v = chars_of(content);
    let r = lit("(( EUID == 99999 ))");
    proof {
        reveal_strlit("(( EUID == 0 ))");
    }
    let out = replace_str(&v, "(( EUID == 0 ))", &r);
    string_of(&out)
}

/// `Path::new(p) == Path::new("/etc/pacman.d/gnupg")`.
pub open spec fn is_default_gpg_dir(p: Seq<char>) -> bool {
    p.len() > 0 && p[0] == '/' && path_parts(p) == seq!["etc"@, "pacman.d"@, "gnupg"@]
}

/// `[flag, a, b]` for each pair, in order.
pub open spec fn flag_pairs(flag: Seq<char>, ps: Seq<(Seq<char>, Seq<char>)>) -> Seq<Seq<char>>
    decreases ps.len(),
{
    if ps.len() == 0 {
        seq![]
    } else {
        flag_pairs(flag, ps.drop_last()) + seq![flag, ps.last().0, ps.last().1]
    }
}

pub open spec fn pairs_view(v: Seq<(String, String)>) -> Seq<(Seq<char>, Seq<char>)> {
    v.map_values(|p: (String, String)| (p.0@, p.1@))
}

pub open spec fn setenv(k: Seq<char>, v: Seq<char>) -> Seq<Seq<char>> {
    seq!["--setenv"@, k, v]
}

/// The read-only system mounts.
pub open spec fn system_mounts() -> Seq<Seq<char>> {
    seq![
        "--ro-bind"@, "/usr"@, "/usr"@,
        "--symlink"@, "usr/bin"@, "/bin"@,
        "--symlink"@, "usr/bin"@, "/sbin"@,
        "--symlink"@, "usr/lib"@, "/lib"@,
        "--symlink"@, "usr/lib"@, "/lib64"@,
        "--ro-bind"@, "/etc"@, "/etc"@,
        "--ro-bind-try"@, "/var"@, "/var"@,
        "--ro-bind-try"@, "/sys"@, "/sys"@,
        "--proc"@, "/proc"@,
        "--dev"@, "/dev"@,
        "--tmpfs"@, "/run"@,
    ]
}

/// The namespace isolation with the builder mapped to root.
pub open spec fn isolation_args() -> Seq<Seq<char>> {
    seq![
        "--unshare-user"@, "--unshare-ipc"@, "--unshare-pid"@, "--unshare-uts"@,
        "--uid"@, "0"@, "--gid"@, "0"@, "--chdir"@, "/build"@, "--clearenv"@,
    ]
}

/// The fixed environment of the container.
pub open spec fn base_env() -> Seq<Seq<char>> {
    setenv("PATH"@, "/tmp/shims:/usr/local/bin:/usr/bin:/bin"@) + setenv("HOME"@, "/build"@)
        + setenv("USER"@, "root"@) + setenv("LOGNAME"@, "root"@) + setenv("LANG"@, "C.UTF-8"@)
        + setenv("LC_ALL"@, "C.UTF-8"@) + setenv("TMPDIR"@, "/tmp"@)
}

/// The compiler-cache environment.
pub open spec fn sccache_env() -> Seq<Seq<char>> {
    setenv("SCCACHE_DIR"@, "/build/.sccache"@) + setenv("CC"@, "sccache gcc"@) + setenv(
        "CXX"@,
        "sccache g++"@,
    ) + setenv("CMAKE_C_COMPILER_LAUNCHER"@, "sccache"@) + setenv(
        "CMAKE_CXX_COMPILER_LAUNCHER"@,
        "sccache"@,
    ) + setenv("RUSTC_WRAPPER"@, "sccache"@)
}

/// The linker flags, with `mold` when it is used.
pub open spec fn spec_ldflags(mold: bool) -> Seq<char> {
    "-Wl,-O1 -Wl,--sort-common -Wl,--as-needed -Wl,-z,relro -Wl,-z,now"@ + if mold {
        " -fuse-ld=mold"@
    } else {
        seq![]
    }
}

/// The mounts of the container.
pub open spec fn spec_mounts(c: SandboxConfig, h: HostLayout) -> Seq<Seq<char>> {
    let scratch = scratch_dir(c.build_dir@);
    let conf = join_rel(scratch, "pacman.conf"@);
    let shim = join_rel(shims_dir(c.build_dir@), "makepkg"@);
    let cache = join_rel(h.cache_dir@, "sccache"@);
    let lb = h.local_bin@;
    let gpg = h.gpg_dir@;
    system_mounts() + (if h.makepkg_shim_written {
        seq!["--ro-bind"@, shim, "/usr/bin/makepkg"@]
    } else {
        seq![]
    }) + seq!["--bind"@, scratch, "/tmp"@, "--bind"@, scratch, "/var/tmp"@] + seq![
        "--ro-bind"@, conf, "/etc/pacman.conf"@,
        "--ro-bind-try"@, "/etc/pacman.d"@, "/etc/pacman.d"@,
        "--ro-bind-try"@, "/etc/pacman.d/gnupg"@, "/etc/pacman.d/gnupg"@,
        "--ro-bind-try"@, "/usr/share/pacman/keyrings"@, "/usr/share/pacman/keyrings"@,
    ] + (if !is_default_gpg_dir(gpg) && h.gpg_dir_exists {
        seq!["--ro-bind-try"@, gpg, gpg]
    } else {
        seq![]
    }) + (if h.local_bin_exists {
        seq!["--ro-bind"@, lb, "/usr/local/bin"@, "--ro-bind-try"@, lb, lb]
    } else {
        seq![]
    }) + seq!["--bind"@, c.build_dir@, "/build"@, "--bind-try"@, cache, "/build/.sccache"@]
}

/// The build environment: fixed settings, the memory plan's flags and job count,
/// the linker, and the compiler cache when it is used.
pub open spec fn spec_build_env(c: SandboxConfig) -> Seq<Seq<char>> {
    let jobs = decimal(c.jobs as nat);
    base_env() + setenv("CFLAGS"@, c.memory_profile.cflags@) + setenv(
        "CXXFLAGS"@,
        c.memory_profile.cxxflags@,
    ) + setenv("MAKEFLAGS"@, "-j"@ + jobs) + setenv("NINJAFLAGS"@, "-j"@ + jobs) + setenv(
        "CARGO_BUILD_JOBS"@,
        jobs,
    ) + setenv("CMAKE_BUILD_PARALLEL_LEVEL"@, jobs) + setenv("LDFLAGS"@, spec_ldflags(c.use_mold))
        + setenv(
        "RUSTFLAGS"@,
        c.memory_profile.rustflags@ + if c.use_mold {
            " -C link-arg=-fuse-ld=mold"@
        } else {
            seq![]
        },
    ) + (if c.use_sccache {
        sccache_env()
    } else {
        seq![]
    })
}

/// The full `bwrap` argument list: mounts, extra binds, isolation, environment,
/// extra variables, then the command.
pub open spec fn spec_bwrap_args(
    c: SandboxConfig,
    h: HostLayout,
    cmd: Seq<Seq<char>>,
    binds: Seq<(Seq<char>, Seq<char>)>,
    envs: Seq<(Seq<char>, Seq<char>)>,
) -> Seq<Seq<char>> {
    spec_mounts(c, h) + flag_pairs("--bind"@, binds) + isolation_args() + spec_build_env(c)
        + flag_pairs("--setenv"@, envs) + cmd
}

fn push_lit(v: &mut Vec<String>, s: &str)
    ensures
        strings_view(final(v)@) == strings_view(old(v)@).push(s@),
{
    let ghost b = strings_view(v@);
    v.push(s.to_owned());
    assert(strings_view(v@) == b.push(s@));
}

fn push_chars(v: &mut Vec<String>, s: &[char])
    ensures
        strings_view(final(v)@) == strings_view(old(v)@).push(s@),
{
    let ghost b = strings_view(v@);
    v.push(string_of(s));
    assert(strings_view(v@) == b.push(s@));
}

fn push_setenv(v: &mut Vec<String>, k: &str, val: &[char])
    ensures
        strings_view(final(v)@) == strings_view(old(v)@) + setenv(k@, val@),
{
    let ghost b = strings_view(v@);
    push_lit(v, "--setenv");
    push_lit(v, k);
    push_chars(v, val);
    assert(strings_view(v@) =~= b + setenv(k@, val@));
}

fn push_lits(v: &mut Vec<String>, a: &[&str])
    ensures
        strings_view(final(v)@) == strings_view(old(v)@) + a@.map_values(|s: &str| s@),
{
    let ghost b = strings_view(v@);
    let mut i: usize = 0;
    while i < a.len()
        invariant
            i <= a.len(),
            strings_view(v@) == b + a@.take(i as int).map_values(|s: &str| s@),
        decreases a.len() - i,
    {
        push_lit(v, a[i]);
        assert(a@.take(i + 1).map_values(|s: &str| s@) == a@.take(i as int).map_values(
            |s: &str| s@,
        ).push(a@[i as int]@));
        i = i + 1;
    }
    assert(a@.take(i as int) == a@);
}

fn push_pairs(v: &mut Vec<String>, flag: &str, ps: &[(String, String)])
    ensures
        strings_view(final(v)@) == strings_view(old(v)@) + flag_pairs(flag@, pairs_view(ps@)),
{
    let ghost b = strings_view(v@);
    let ghost pv = pairs_view(ps@);
    let mut i: usize = 0;
    assert(pv.take(0) =~= Seq::<(Seq<char>, Seq<char>)>::empty());
    while i < ps.len()
        invariant
            i <= ps.len(),
            pv == pairs_view(ps@),
            strings_view(v@) == b + flag_pairs(flag@, pv.take(i as int)),
        decreases ps.len() - i,
    {
        assert(pv.take(i + 1).drop_last() == pv.take(i as int));
        assert(pv.take(i + 1).last() == (ps@[i as int].0@, ps@[i as int].1@));
        let ghost b2 = strings_view(v@);
        push_lit(v, flag);
        let a = chars_of(ps[i].0.as_str());
        let c = chars_of(ps[i].1.as_str());
        push_chars(v, &a);
        push_chars(v, &c);
        assert(strings_view(v@) =~= b2 + seq![flag@, ps@[i as int].0@, ps@[i as int].1@]);
        i = i + 1;
    }
    assert(pv.take(i as int) == pv);
}

fn append_strings(v: &mut Vec<String>, w: &[String])
    ensures
        strings_view(final(v)@) == strings_view(old(v)@) + strings_view(w@),
{
    let ghost b = strings_view(v@);
    let mut i: usize = 0;
    while i < w.len()
        invariant
            i <= w.len(),
            strings_view(v@) == b + strings_view(w@.take(i as int)),
        decreases w.len() - i,
    {
        let ghost b2 = strings_view(v@);
        v.push(w[i].clone());
        assert(strings_view(v@) == b2.push(w@[i as int]@));
        assert(strings_view(w@.take(i + 1)) == strings_view(w@.take(i as int)).push(w@[i as int]@));
        i = i + 1;
    }
    assert(w@.take(i as int) == w@);
}

impl BubblewrapSandbox {
    /// A container for building `pkg_name` in `build_dir` with the given memory
    /// plan; as many jobs as the plan allows.
    pub fn new(
        pkg_name: &str,
        build_dir: &str,
        memory_profile: MemoryProfile,
        use_sccache: bool,
        use_mold: bool,
    ) -> (s: BubblewrapSandbox)
        ensures
            s.config.pkg_name@ == pkg_name@,
            s.config.build_dir@ == build_dir@,
            s.config.use_sccache == use_sccache,
            s.config.use_mold == use_mold,
            s.config.jobs == memory_profile.safe_jobs,
            s.config.memory_profile == memory_profile,
    {
        let jobs = memory_profile.safe_jobs;
        BubblewrapSandbox {
            config: SandboxConfig {
                build_dir: build_dir.to_owned(),
                pkg_name: pkg_name.to_owned(),
                use_sccache,
                use_mold,
                jobs,
                memory_profile,
            },
        }
    }

    /// The same container with `jobs` parallel jobs.
    pub fn with_jobs(self, jobs: usize) -> (s: BubblewrapSandbox)
        ensures
            s.config == (SandboxConfig { jobs, ..self.config }),
    {
        let mut s = self;
        s.config.jobs = jobs;
        s
    }

    /// The number of parallel jobs builds are given.
    pub fn jobs(&self) -> (n: usize)
        ensures
            n == self.config.jobs,
    {
        self.config.jobs
    }

    /// The command that builds the package in the container.
    pub fn build_command() -> (c: Vec<String>)
        ensures
            strings_view(c@) == seq!["makepkg"@, "-f"@, "--nodeps"@],
    {
        let mut c: Vec<String> = Vec::new();
        push_lit(&mut c, "makepkg");
        push_lit(&mut c, "-f");
        push_lit(&mut c, "--nodeps");
        assert(strings_view(c@) =~= seq!["makepkg"@, "-f"@, "--nodeps"@]);
        c
    }

    /// The command that runs a shell script in the container.
    pub fn script_command(script: &str) -> (c: Vec<String>)
        ensures
            strings_view(c@) == seq!["/bin/sh"@, "-c"@, script@],
    {
        let mut c: Vec<String> = Vec::new();
        push_lit(&mut c, "/bin/sh");
        push_lit(&mut c, "-c");
        push_lit(&mut c, script);
        assert(strings_view(c@) =~= seq!["/bin/sh"@, "-c"@, script@]);
        c
    }

    /// The arguments of `bwrap` that run `command_args` in the container.
    pub fn bwrap_args(
        &self,
        host: &HostLayout,
        command_args: &[String],
        extra_binds: &[(String, String)],
        extra_envs: &[(String, String)],
    ) -> (args: Vec<String>)
        ensures
            strings_view(args@) == spec_bwrap_args(
                self.config,
                *host,
                strings_view(command_args@),
                pairs_view(extra_binds@),
                pairs_view(extra_envs@),
            ),
    {
        let mut a = mount_args(&self.config, host);
        push_pairs(&mut a, "--bind", extra_binds);
        let iso: [&str; 11] = [
            "--unshare-user", "--unshare-ipc", "--unshare-pid", "--unshare-uts",
            "--uid", "0", "--gid", "0", "--chdir", "/build", "--clearenv",
        ];
        assert(iso@.map_values(|s: &str| s@) =~= isolation_args());
        push_lits(&mut a, &iso);
        let env = build_env_args(&self.config);
        append_strings(&mut a, &env);
        push_pairs(&mut a, "--setenv", extra_envs);
        append_strings(&mut a, command_args);
        a
    }
}

fn push3(v: &mut Vec<String>, x: &str, y: &str, z: &str)
    ensures
        strings_view(final(v)@) == strings_view(old(v)@) + seq![x@, y@, z@],
{
    let ghost b = strings_view(v@);
    push_lit(v, x);
    push_lit(v, y);
    push_lit(v, z);
    assert(strings_view(v@) =~= b + seq![x@, y@, z@]);
}

fn mount_args(c: &SandboxConfig, host: &HostLayout) -> (a: Vec<String>)
    ensures
        strings_view(a@) == spec_mounts(*c, *host),
{
    let paths = sandbox_paths(c.build_dir.as_str(), host.cache_dir.as_str());
    let ghost scratch = scratch_dir(c.build_dir@);
    let ghost lb = host.local_bin@;
    let ghost gpg = host.gpg_dir@;
    let mut a: Vec<String> = Vec::new();
    let sys: [&str; 30] = [
        "--ro-bind", "/usr", "/usr",
        "--symlink", "usr/bin", "/bin",
        "--symlink", "usr/bin", "/sbin",
        "--symlink", "usr/lib", "/lib",
        "--symlink", "usr/lib", "/lib64",
        "--ro-bind", "/etc", "/etc",
        "--ro-bind-try", "/var", "/var",
        "--ro-bind-try", "/sys", "/sys",
        "--proc", "/proc",
        "--dev", "/dev",
        "--tmpfs", "/run",
    ];
    assert(sys@.map_values(|s: &str| s@) =~= system_mounts());
    push_lits(&mut a, &sys);
    let ghost s1 = strings_view(a@);
    let ghost p1: Seq<Seq<char>> = if host.makepkg_shim_written {
        seq!["--ro-bind"@, join_rel(shims_dir(c.build_dir@), "makepkg"@), "/usr/bin/makepkg"@]
    } else {
        seq![]
    };
    if host.makepkg_shim_written {
        push3(&mut a, "--ro-bind", paths.makepkg_shim.as_str(), "/usr/bin/makepkg");
    }
    assert(strings_view(a@) =~= s1 + p1);
    let ghost s2 = strings_view(a@);
    push3(&mut a, "--bind", paths.scratch_dir.as_str(), "/tmp");
    push3(&mut a, "--bind", paths.scratch_dir.as_str(), "/var/tmp");
    assert(strings_view(a@) =~= s2 + seq!["--bind"@, scratch, "/tmp"@, "--bind"@, scratch, "/var/tmp"@]);
    let ghost s3 = strings_view(a@);
    push3(&mut a, "--ro-bind", paths.pacman_conf.as_str(), "/etc/pacman.conf");
    push3(&mut a, "--ro-bind-try", "/etc/pacman.d", "/etc/pacman.d");
    push3(&mut a, "--ro-bind-try", "/etc/pacman.d/gnupg", "/etc/pacman.d/gnupg");
    push3(&mut a, "--ro-bind-try", "/usr/share/pacman/keyrings", "/usr/share/pacman/keyrings");
    assert(strings_view(a@) =~= s3 + seq![
        "--ro-bind"@, join_rel(scratch, "pacman.conf"@), "/etc/pacman.conf"@,
        "--ro-bind-try"@, "/etc/pacman.d"@, "/etc/pacman.d"@,
        "--ro-bind-try"@, "/etc/pacman.d/gnupg"@, "/etc/pacman.d/gnupg"@,
        "--ro-bind-try"@, "/usr/share/pacman/keyrings"@, "/usr/share/pacman/keyrings"@,
    ]);
    let ghost s4 = strings_view(a@);
    let is_default = is_rooted_path3(host.gpg_dir.as_str(), "etc", "pacman.d", "gnupg");
    let ghost p5: Seq<Seq<char>> = if !is_default_gpg_dir(gpg) && host.gpg_dir_exists {
        seq!["--ro-bind-try"@, gpg, gpg]
    } else {
        seq![]
    };
    if !is_default && host.gpg_dir_exists {
        push3(&mut a, "--ro-bind-try", host.gpg_dir.as_str(), host.gpg_dir.as_str());
    }
    assert(strings_view(a@) =~= s4 + p5);
    let ghost s5 = strings_view(a@);
    let ghost p6: Seq<Seq<char>> = if host.local_bin_exists {
        seq!["--ro-bind"@, lb, "/usr/local/bin"@, "--ro-bind-try"@, lb, lb]
    } else {
        seq![]
    };
    if host.local_bin_exists {
        push3(&mut a, "--ro-bind", host.local_bin.as_str(), "/usr/local/bin");
        push3(&mut a, "--ro-bind-try", host.local_bin.as_str(), host.local_bin.as_str());
    }
    assert(strings_view(a@) =~= s5 + p6);
    let ghost s6 = strings_view(a@);
    push3(&mut a, "--bind", c.build_dir.as_str(), "/build");
    push3(&mut a, "--bind-try", paths.host_cache_dir.as_str(), "/build/.sccache");
    assert(strings_view(a@) =~= s6 + seq![
        "--bind"@, c.build_dir@, "/build"@, "--bind-try"@, join_rel(host.cache_dir@, "sccache"@),
        "/build/.sccache"@,
    ]);
    assert(strings_view(a@) =~= spec_mounts(*c, *host));
    a
}

fn build_env_args(c: &SandboxConfig) -> (a: Vec<String>)
    ensures
        strings_view(a@) == spec_build_env(*c),
{
    let mut a: Vec<String> = Vec::new();
    push_setenv(&mut a, "PATH", &lit("/tmp/shims:/usr/local/bin:/usr/bin:/bin"));
    push_setenv(&mut a, "HOME", &lit("/build"));
    push_setenv(&mut a, "USER", &lit("root"));
    push_setenv(&mut a, "LOGNAME", &lit("root"));
    push_setenv(&mut a, "LANG", &lit("C.UTF-8"));
    push_setenv(&mut a, "LC_ALL", &lit("C.UTF-8"));
    push_setenv(&mut a, "TMPDIR", &lit("/tmp"));
    assert(strings_view(a@) =~= base_env());
    let ghost s9 = strings_view(a@);
    let jobs = decimal_chars(c.jobs as u64);
    let mut dash_j = lit("-j");
    append(&mut dash_j, &jobs);
    push_setenv(&mut a, "CFLAGS", &chars_of(c.memory_profile.cflags.as_str()));
    push_setenv(&mut a, "CXXFLAGS", &chars_of(c.memory_profile.cxxflags.as_str()));
    push_setenv(&mut a, "MAKEFLAGS", &dash_j);
    push_setenv(&mut a, "NINJAFLAGS", &dash_j);
    push_setenv(&mut a, "CARGO_BUILD_JOBS", &jobs);
    push_setenv(&mut a, "CMAKE_BUILD_PARALLEL_LEVEL", &jobs);
    let mut rustflags = chars_of(c.memory_profile.rustflags.as_str());
    let mut ldflags = lit("-Wl,-O1 -Wl,--sort-common -Wl,--as-needed -Wl,-z,relro -Wl,-z,now");
    if c.use_mold {
        append_str(&mut ldflags, " -fuse-ld=mold");
        append_str(&mut rustflags, " -C link-arg=-fuse-ld=mold");
    }
    assert(ldflags@ == spec_ldflags(c.use_mold));
    push_setenv(&mut a, "LDFLAGS", &ldflags);
    push_setenv(&mut a, "RUSTFLAGS", &rustflags);
    let ghost s10 = strings_view(a@);
    if c.use_sccache {
        push_setenv(&mut a, "SCCACHE_DIR", &lit("/build/.sccache"));
        push_setenv(&mut a, "CC", &lit("sccache gcc"));
        push_setenv(&mut a, "CXX", &lit("sccache g++"));
        push_setenv(&mut a, "CMAKE_C_COMPILER_LAUNCHER", &lit("sccache"));
        push_setenv(&mut a, "CMAKE_CXX_COMPILER_LAUNCHER", &lit("sccache"));
        push_setenv(&mut a, "RUSTC_WRAPPER", &lit("sccache"));
        assert(strings_view(a@) =~= s10 + sccache_env());
    } else {
        assert(strings_view(a@) =~= s10 + Seq::<Seq<char>>::empty());
    }
    assert(strings_view(a@) =~= spec_build_env(*c));
    a
}

} // verus!
