//! Properties of the engine that hold across its operations.

use vstd::prelude::*;
use crate::config::{
    close_repo, file_paths, find_file, find_path, fold_conf, line_key, line_value, parse_conf, spec_default_config,
    spec_expand, spec_parse_text, step_conf, step_kv, join_rel, ParseV, Section,
    has_cachy, has_repo, spec_ensure_upstream, spec_inject_cachy, spec_load, without_cachy, add_upstream,
    cachy_repos, with_repos, ConfigV, CpuTier, RepoV, upstream_repo, upstream_template,
};
use crate::memory_guard::{max_jobs, spec_safe_jobs};
use crate::micro_repo::{spec_parse_pkg_filename, trim_end_matches};
use crate::text::{
    contains, decimal, ends_with, eq_ignore_ascii_case, lemma_find_from_bounds, lemma_rfind_bounds, lowercase, occurs_at,
    replace, rfind, starts_with,
};
use crate::brain::{spec_diagnose, why_response, ResponseV, WikiTopic};
use crate::sandbox::{
    default_sandbox_conf, has_local_line, has_remote_line, has_sig_line, is_local_siglevel_line,
    is_remote_siglevel_line, is_siglevel_line, join_lines, missing_levels, options_index, rewrite_line,
    rewritten_lines, sandbox_conf_lines, spec_bwrap_args, spec_sandbox_conf, HostLayout, SandboxConfig,
    base_env, flag_pairs, is_default_gpg_dir, isolation_args, scratch_dir, sccache_env, setenv, shims_dir,
    spec_build_env, spec_ldflags, spec_mounts, system_mounts,
};
use crate::text::{
    ascii_lower, find_from, is_ws, lines, lines_from, strip_cr, to_ascii_lower, trim, trim_end, trim_start,
};
use crate::keyring::{
    month_and_day, month_lengths, year_and_day, year_length,
    add_options, alnum_only, fingerprint_groups, has_option_line, is_ascii_alnum, required_gpg_options,
    spec_format_fingerprint,
};
use crate::scavenger::{
    apply_fetches, donor_for, donor_queue, fallback_from, fallback_ok, fetch_step, merge_deps, round_plan,
    spec_plan_round, ScavengeV, MAX_SCAVENGE_ROUNDS,
};
use crate::keyring::{insert_pos, name_le, sorted_names};
use crate::forge::clamp1;
use crate::ui::{candy_track, clamp_percent, repeat, spec_candy_bar};
use crate::psi::{psi_signals, psi_step, PsiAction};

verus! {

// ----------------------------------------------------------------------------
// Build budgeting
// ----------------------------------------------------------------------------

/// The job budget is never below one and never above the cores left after
/// keeping one for the desktop (one on a single core).
pub proof fn law_safe_jobs_bounds(total_ram_mib: u64, nproc: usize)
    ensures
        1 <= spec_safe_jobs(total_ram_mib, nproc) <= max_jobs(nproc),
        nproc >= 2 ==> spec_safe_jobs(total_ram_mib, nproc) <= nproc - 1,
{
}

/// More memory never means fewer jobs.
pub proof fn law_safe_jobs_monotonic(ram_a: u64, ram_b: u64, nproc: usize)
    requires
        ram_a <= ram_b,
    ensures
        spec_safe_jobs(ram_a, nproc) <= spec_safe_jobs(ram_b, nproc),
{
    assert((ram_a as int) / 1536 <= (ram_b as int) / 1536) by (nonlinear_arith)
        requires
            ram_a <= ram_b,
    ;
}

/// The compiler flags used at or below 8 GiB of RAM hold no link-time
/// optimisation flag.
pub proof fn law_low_ram_flags_have_no_lto()
    ensures
        !contains("-march=native -O2 -pipe -fno-plt"@, "-flto"@),
{
    reveal_strlit("-march=native -O2 -pipe -fno-plt");
    reveal_strlit("-flto");
    let s = "-march=native -O2 -pipe -fno-plt"@;
    let p = "-flto"@;
    assert forall|i: int| !occurs_at(s, p, i) by {
        if occurs_at(s, p, i) {
            assert(s.subrange(i, i + 5)[0] == '-');
            assert(s.subrange(i, i + 5)[1] == 'f');
            assert(s.subrange(i, i + 5)[2] == 'l');
            assert(s[i] == '-');
            assert(s[i + 1] == 'f');
            assert(s[i + 2] == 'l');
        }
    }
}

/// A per-package thread budget lies between one and the processor count.
pub proof fn law_safe_threads_bounds(by_ram: int, nproc: int)
    requires
        nproc >= 1,
    ensures
        1 <= clamp1(by_ram, nproc) <= nproc,
{
}

// ----------------------------------------------------------------------------
// Repository configuration
// ----------------------------------------------------------------------------

proof fn lemma_add_upstream_has(rs: Seq<RepoV>, name: Seq<char>, arch: Seq<char>, other: Seq<char>)
    ensures
        has_repo(add_upstream(rs, name, arch), name),
        has_repo(rs, other) ==> has_repo(add_upstream(rs, name, arch), other),
        rs.len() <= add_upstream(rs, name, arch).len(),
        add_upstream(rs, name, arch).take(rs.len() as int) == rs,
{
    if !has_repo(rs, name) {
        let r2 = rs.push(upstream_repo(name, arch));
        assert(r2[rs.len() as int].name == name);
        if has_repo(rs, other) {
            let i = choose|i: int| 0 <= i < rs.len() && rs[i].name == other;
            assert(r2[i].name == other);
        }
        assert(r2.take(rs.len() as int) == rs);
    } else {
        assert(rs.take(rs.len() as int) == rs);
    }
}

/// After the upstream repositories are ensured, `core`, `extra` and `multilib`
/// are configured, and the repositories configured before are kept in order.
pub proof fn law_ensure_upstream_complete(rs: Seq<RepoV>, arch: Seq<char>)
    ensures
        has_repo(spec_ensure_upstream(rs, arch), "core"@),
        has_repo(spec_ensure_upstream(rs, arch), "extra"@),
        has_repo(spec_ensure_upstream(rs, arch), "multilib"@),
        spec_ensure_upstream(rs, arch).take(rs.len() as int) == rs,
{
    let r1 = add_upstream(rs, "core"@, arch);
    let r2 = add_upstream(r1, "extra"@, arch);
    lemma_add_upstream_has(rs, "core"@, arch, "core"@);
    lemma_add_upstream_has(r1, "extra"@, arch, "core"@);
    lemma_add_upstream_has(r2, "multilib"@, arch, "core"@);
    lemma_add_upstream_has(r2, "multilib"@, arch, "extra"@);
    lemma_add_upstream_has(r1, "extra"@, arch, "extra"@);
    lemma_add_upstream_has(r2, "multilib"@, arch, "multilib"@);
    let r3 = add_upstream(r2, "multilib"@, arch);
    assert(r3.take(rs.len() as int) == r2.take(r1.len() as int).take(rs.len() as int));
    assert(r2.take(r1.len() as int).take(rs.len() as int) == r1.take(rs.len() as int));
}

/// Replacing in a text whose first part holds no first character of the
/// pattern leaves that part as it is.
proof fn lemma_replace_skip(a: Seq<char>, b: Seq<char>, p: Seq<char>, r: Seq<char>)
    requires
        p.len() > 0,
        forall|i: int| 0 <= i < a.len() ==> a[i] != p[0],
    ensures
        replace(a + b, p, r) == a + replace(b, p, r),
    decreases a.len(),
{
    if a.len() > 0 {
        let s = a + b;
        assert(s[0] == a[0]);
        assert(!starts_with(s, p)) by {
            if starts_with(s, p) {
                assert(s.take(p.len() as int)[0] == s[0]);
            }
        }
        assert(s.drop_first() =~= a.drop_first() + b);
        lemma_replace_skip(a.drop_first(), b, p, r);
        assert(replace(s, p, r) == seq![s[0]] + replace(s.drop_first(), p, r));
        assert(seq![a[0]] + (a.drop_first() + replace(b, p, r)) =~= a + replace(b, p, r));
    } else {
        assert(a + b =~= b);
        assert(a + replace(b, p, r) =~= replace(b, p, r));
    }
}

/// Replacing in a text that begins with the pattern puts the replacement first.
proof fn lemma_replace_head(p: Seq<char>, b: Seq<char>, r: Seq<char>)
    requires
        p.len() > 0,
    ensures
        replace(p + b, p, r) == r + replace(b, p, r),
{
    let s = p + b;
    assert(s.take(p.len() as int) =~= p);
    assert(s.skip(p.len() as int) =~= b);
}

/// The URL of the standard repository `name` on the geo mirror: the template
/// with `$repo` and `$arch` filled in.
pub proof fn law_upstream_mirror_url(name: Seq<char>, arch: Seq<char>)
    requires
        !name.contains('$'),
    ensures
        spec_expand(upstream_template(), name, arch) == "https://geo.mirror.pkgbuild.com/"@ + name + "/os/"@ + arch,
{
    reveal_strlit("https://geo.mirror.pkgbuild.com/$repo/os/$arch");
    reveal_strlit("https://geo.mirror.pkgbuild.com/");
    reveal_strlit("/os/");
    reveal_strlit("$repo");
    reveal_strlit("$arch");
    let pre = "https://geo.mirror.pkgbuild.com/"@;
    let os = "/os/"@;
    let rp = "$repo"@;
    let ar = "$arch"@;
    assert(upstream_template() =~= pre + (rp + (os + ar)));
    lemma_replace_skip(pre, rp + (os + ar), rp, name);
    lemma_replace_head(rp, os + ar, name);
    lemma_replace_skip(os, ar, rp, name);
    assert(replace(ar, rp, name) == ar) by {
        assert(!starts_with(ar, rp)) by {
            assert(ar.take(5)[1] != rp[1]);
        }
        assert(ar.drop_first() =~= "arch"@) by {
            reveal_strlit("arch");
        }
        reveal_strlit("arch");
        lemma_replace_skip("arch"@, Seq::<char>::empty(), rp, name);
        assert("arch"@ + Seq::<char>::empty() =~= "arch"@);
        assert(replace(Seq::<char>::empty(), rp, name) == Seq::<char>::empty());
        assert("arch"@ + Seq::<char>::empty() =~= "arch"@);
        assert(seq![ar[0]] + "arch"@ =~= ar);
    }
    let mid = pre + name + os;
    assert(pre + (name + (os + ar)) =~= mid + (ar + Seq::<char>::empty()));
    assert forall|i: int| 0 <= i < mid.len() implies mid[i] != ar[0] by {
        if pre.len() <= i < pre.len() + name.len() {
            assert(mid[i] == name[i - pre.len()]);
        }
    }
    lemma_replace_skip(mid, ar + Seq::<char>::empty(), ar, arch);
    lemma_replace_head(ar, Seq::<char>::empty(), arch);
    assert(replace(Seq::<char>::empty(), ar, arch) == Seq::<char>::empty());
    assert(mid + (arch + Seq::<char>::empty()) =~= pre + name + os + arch);
}

/// The standard repository `name` on the geo mirror, as pacman.conf would list it.
pub open spec fn geo_repo(name: Seq<char>, arch: Seq<char>) -> RepoV {
    RepoV { name, servers: seq!["https://geo.mirror.pkgbuild.com/"@ + name + "/os/"@ + arch], sig_level: None }
}

/// Ensuring the upstream repositories appends, after the existing ones, each of
/// `core`, `extra` and `multilib` (in that order) that no existing repository
/// is named, served from `https://geo.mirror.pkgbuild.com/<name>/os/<arch>`.
pub proof fn law_ensure_upstream_exact(rs: Seq<RepoV>, arch: Seq<char>)
    ensures
        spec_ensure_upstream(rs, arch) == rs + (if has_repo(rs, "core"@) {
            Seq::<RepoV>::empty()
        } else {
            seq![geo_repo("core"@, arch)]
        }) + (if has_repo(rs, "extra"@) {
            Seq::<RepoV>::empty()
        } else {
            seq![geo_repo("extra"@, arch)]
        }) + (if has_repo(rs, "multilib"@) {
            Seq::<RepoV>::empty()
        } else {
            seq![geo_repo("multilib"@, arch)]
        }),
{
    reveal_strlit("core");
    reveal_strlit("extra");
    reveal_strlit("multilib");
    let names: Seq<Seq<char>> = seq!["core"@, "extra"@, "multilib"@];
    assert forall|k: int| 0 <= k < 3 implies !(#[trigger] names[k]).contains('$') by {
        assert(names[k] == "core"@ || names[k] == "extra"@ || names[k] == "multilib"@);
    }
    assert(names[0] == "core"@ && names[1] == "extra"@ && names[2] == "multilib"@);
    law_upstream_mirror_url("core"@, arch);
    law_upstream_mirror_url("extra"@, arch);
    law_upstream_mirror_url("multilib"@, arch);
    assert(upstream_repo("core"@, arch) == geo_repo("core"@, arch));
    assert(upstream_repo("extra"@, arch) == geo_repo("extra"@, arch));
    assert(upstream_repo("multilib"@, arch) == geo_repo("multilib"@, arch));
    assert("core"@ != "extra"@ && "core"@ != "multilib"@ && "extra"@ != "multilib"@) by {
        assert("core"@.len() != "extra"@.len());
        assert("core"@.len() != "multilib"@.len());
        assert("extra"@.len() != "multilib"@.len());
    }
    let r1 = add_upstream(rs, "core"@, arch);
    let r2 = add_upstream(r1, "extra"@, arch);
    // Adding one standard repository does not change whether the others exist.
    assert(has_repo(r1, "extra"@) == has_repo(rs, "extra"@)) by {
        if has_repo(r1, "extra"@) {
            let i = choose|i: int| 0 <= i < r1.len() && r1[i].name == "extra"@;
            if i < rs.len() {
                assert(rs[i] == r1[i]);
            }
        }
        if has_repo(rs, "extra"@) {
            let i = choose|i: int| 0 <= i < rs.len() && rs[i].name == "extra"@;
            assert(r1[i] == rs[i]);
        }
    }
    assert(has_repo(r1, "multilib"@) == has_repo(rs, "multilib"@)) by {
        if has_repo(r1, "multilib"@) {
            let i = choose|i: int| 0 <= i < r1.len() && r1[i].name == "multilib"@;
            if i < rs.len() {
                assert(rs[i] == r1[i]);
            }
        }
        if has_repo(rs, "multilib"@) {
            let i = choose|i: int| 0 <= i < rs.len() && rs[i].name == "multilib"@;
            assert(r1[i] == rs[i]);
        }
    }
    assert(has_repo(r2, "multilib"@) == has_repo(r1, "multilib"@)) by {
        if has_repo(r2, "multilib"@) {
            let i = choose|i: int| 0 <= i < r2.len() && r2[i].name == "multilib"@;
            if i < r1.len() {
                assert(r1[i] == r2[i]);
            }
        }
        if has_repo(r1, "multilib"@) {
            let i = choose|i: int| 0 <= i < r1.len() && r1[i].name == "multilib"@;
            assert(r2[i] == r1[i]);
        }
    }
    let c: Seq<RepoV> = if has_repo(rs, "core"@) { seq![] } else { seq![geo_repo("core"@, arch)] };
    let e: Seq<RepoV> = if has_repo(rs, "extra"@) { seq![] } else { seq![geo_repo("extra"@, arch)] };
    let m: Seq<RepoV> = if has_repo(rs, "multilib"@) { seq![] } else { seq![geo_repo("multilib"@, arch)] };
    assert(r1 =~= rs + c);
    assert(r2 =~= rs + c + e);
    assert(spec_ensure_upstream(rs, arch) =~= rs + c + e + m);
}

/// Ensuring the upstream repositories twice changes nothing more than once.
pub proof fn law_ensure_upstream_idempotent(rs: Seq<RepoV>, arch: Seq<char>)
    ensures
        spec_ensure_upstream(spec_ensure_upstream(rs, arch), arch) == spec_ensure_upstream(rs, arch),
{
    law_ensure_upstream_complete(rs, arch);
}

proof fn lemma_cachy_repos_named(tier: CpuTier, arch: Seq<char>)
    ensures
        cachy_repos(tier, arch).len() > 0,
        starts_with(cachy_repos(tier, arch)[0].name, "cachyos"@),
{
    reveal_strlit("cachyos");
    reveal_strlit("cachyos-v4");
    reveal_strlit("cachyos-v3");
    match tier {
        CpuTier::V4 => {
            assert("cachyos-v4"@.take(7) =~= "cachyos"@);
        },
        CpuTier::V3 => {
            assert("cachyos-v3"@.take(7) =~= "cachyos"@);
        },
        CpuTier::Generic => {
            assert("cachyos"@.take(7) =~= "cachyos"@);
        },
    }
}

/// Injecting the CachyOS repositories twice changes nothing more than once.
pub proof fn law_inject_cachy_idempotent(rs: Seq<RepoV>, tier: CpuTier, arch: Seq<char>)
    ensures
        spec_inject_cachy(spec_inject_cachy(rs, tier, arch), tier, arch) == spec_inject_cachy(rs, tier, arch),
        has_cachy(spec_inject_cachy(rs, tier, arch)),
{
    if !has_cachy(rs) {
        lemma_cachy_repos_named(tier, arch);
        let r = cachy_repos(tier, arch) + rs;
        assert(r[0] == cachy_repos(tier, arch)[0]);
    }
}

/// With CachyOS disabled no CachyOS repository remains.
pub proof fn law_without_cachy_has_none(rs: Seq<RepoV>)
    ensures
        !has_cachy(without_cachy(rs)),
{
    let f = without_cachy(rs);
    assert forall|i: int| 0 <= i < f.len() implies !starts_with(#[trigger] f[i].name, "cachyos"@) by {
        rs.lemma_filter_pred(|r: RepoV| !starts_with(r.name, "cachyos"@), i);
    }
}

proof fn lemma_without_cachy_keeps(rs: Seq<RepoV>, name: Seq<char>)
    requires
        has_repo(rs, name),
        !starts_with(name, "cachyos"@),
    ensures
        has_repo(without_cachy(rs), name),
{
    let i = choose|i: int| 0 <= i < rs.len() && rs[i].name == name;
    rs.lemma_filter_contains(|r: RepoV| !starts_with(r.name, "cachyos"@), i);
    let f = without_cachy(rs);
    let j = choose|j: int| 0 <= j < f.len() && f[j] == rs[i];
    assert(f[j].name == name);
}

/// The configuration the engine runs with always has `core`, `extra` and
/// `multilib`; with `--no-cachy` it has no CachyOS repository, and otherwise it
/// has one.
pub proof fn law_loaded_repositories(
    base: ConfigV,
    root: Option<Seq<char>>,
    db: Option<Seq<char>>,
    no_cachy: bool,
    tier: CpuTier,
)
    ensures
        has_repo(spec_load(base, root, db, no_cachy, tier).repositories, "core"@),
        has_repo(spec_load(base, root, db, no_cachy, tier).repositories, "extra"@),
        has_repo(spec_load(base, root, db, no_cachy, tier).repositories, "multilib"@),
        no_cachy ==> !has_cachy(spec_load(base, root, db, no_cachy, tier).repositories),
        !no_cachy ==> has_cachy(spec_load(base, root, db, no_cachy, tier).repositories),
{
    let c1 = match root {
        Some(r) => crate::config::apply_root(base, r),
        None => base,
    };
    let c2 = match db {
        Some(d) => ConfigV { db_path: d, ..c1 },
        None => c1,
    };
    let rs = spec_ensure_upstream(c2.repositories, c2.architecture);
    law_ensure_upstream_complete(c2.repositories, c2.architecture);
    reveal_strlit("core");
    reveal_strlit("extra");
    reveal_strlit("multilib");
    reveal_strlit("cachyos");
    if no_cachy {
        assert(!starts_with("core"@, "cachyos"@));
        assert(!starts_with("extra"@, "cachyos"@));
        assert(!starts_with("multilib"@, "cachyos"@)) by {
            assert("multilib"@.take(7) != "cachyos"@) by {
                assert("multilib"@.take(7)[0] != "cachyos"@[0]);
            }
        }
        lemma_without_cachy_keeps(rs, "core"@);
        lemma_without_cachy_keeps(rs, "extra"@);
        lemma_without_cachy_keeps(rs, "multilib"@);
        law_without_cachy_has_none(rs);
    } else {
        law_inject_cachy_idempotent(rs, tier, c2.architecture);
        let inj = spec_inject_cachy(rs, tier, c2.architecture);
        if !has_cachy(rs) {
            let k = cachy_repos(tier, c2.architecture);
            assert forall|name: Seq<char>| has_repo(rs, name) implies has_repo(k + rs, name) by {
                let i = choose|i: int| 0 <= i < rs.len() && rs[i].name == name;
                assert((k + rs)[k.len() + i] == rs[i]);
            }
        }
    }
}

// ----------------------------------------------------------------------------
// Micro-repositories
// ----------------------------------------------------------------------------

proof fn lemma_rfind_after(a: Seq<char>, b: Seq<char>)
    requires
        !b.contains('-'),
    ensures
        rfind(a + seq!['-'] + b, '-') == a.len(),
    decreases b.len(),
{
    let s = a + seq!['-'] + b;
    if b.len() == 0 {
        assert(s.last() == '-');
    } else {
        assert(s.last() == b.last());
        assert(b.last() != '-') by {
            if b.last() == '-' {
                assert(b[b.len() - 1] == '-');
            }
        }
        assert(s.drop_last() == a + seq!['-'] + b.drop_last());
        assert(!b.drop_last().contains('-')) by {
            if b.drop_last().contains('-') {
                let k = choose|k: int| 0 <= k < b.drop_last().len() && b.drop_last()[k] == '-';
                assert(b[k] == '-');
            }
        }
        lemma_rfind_after(a, b.drop_last());
    }
}

/// A package file name built as `name-version-release-arch` followed by
/// `.pkg.tar.zst` or `.pkg.tar.xz` is read back as `(name, "version-release",
/// arch)`, when the version, release and architecture hold no `-` and the part
/// before the extension does not itself end in a package extension.
pub proof fn law_pkg_filename_round_trip(
    name: Seq<char>,
    ver: Seq<char>,
    rel: Seq<char>,
    arch: Seq<char>,
    ext: Seq<char>,
)
    requires
        !ver.contains('-'),
        !rel.contains('-'),
        !arch.contains('-'),
        ext == ".pkg.tar.zst"@ || ext == ".pkg.tar.xz"@,
        !ends_with(name + "-"@ + ver + "-"@ + rel + "-"@ + arch, ".pkg.tar.zst"@),
        !ends_with(name + "-"@ + ver + "-"@ + rel + "-"@ + arch, ".pkg.tar.xz"@),
    ensures
        spec_parse_pkg_filename(name + "-"@ + ver + "-"@ + rel + "-"@ + arch + ext) == Some(
            (name, ver + "-"@ + rel, arch),
        ),
{
    reveal_strlit("-");
    reveal_strlit(".pkg.tar.zst");
    reveal_strlit(".pkg.tar.xz");
    let dash: Seq<char> = "-"@;
    assert(dash =~= seq!['-']);
    let stem = name + dash + ver + dash + rel + dash + arch;
    let zst = ".pkg.tar.zst"@;
    let xz = ".pkg.tar.xz"@;
    let f = stem + ext;
    assert(ends_with(f, ext)) by {
        assert(f.skip(f.len() - ext.len()) =~= ext);
    }
    assert(f.take(f.len() - ext.len()) =~= stem);
    if ext == zst {
        assert(trim_end_matches(f, zst) == trim_end_matches(stem, zst));
        assert(trim_end_matches(stem, zst) == stem);
        assert(trim_end_matches(stem, xz) == stem);
    } else {
        assert(!ends_with(f, zst)) by {
            if ends_with(f, zst) {
                assert(f.skip(f.len() - zst.len()).last() == f.last());
                assert(f.last() == ext.last());
            }
        }
        assert(trim_end_matches(f, zst) == f);
        assert(trim_end_matches(f, xz) == trim_end_matches(stem, xz));
        assert(trim_end_matches(stem, xz) == stem);
    }
    let head = name + dash + ver + dash + rel;
    assert(stem =~= head + seq!['-'] + arch);
    lemma_rfind_after(head, arch);
    assert(stem.take(head.len() as int) =~= head);
    assert(stem.skip((head.len() + 1) as int) =~= arch);
    let nv = name + dash + ver;
    assert(head =~= nv + seq!['-'] + rel);
    lemma_rfind_after(nv, rel);
    assert(head.take(nv.len() as int) =~= nv);
    assert(head.skip((nv.len() + 1) as int) =~= rel);
    assert(nv =~= name + seq!['-'] + ver);
    lemma_rfind_after(name, ver);
    assert(nv.take(name.len() as int) =~= name);
    assert(nv.skip((name.len() + 1) as int) =~= ver);
}

/// The name of a package file without its trailing `.pkg.tar.zst` and then
/// `.pkg.tar.xz` extensions.
pub open spec fn pkg_file_stem(f: Seq<char>) -> Seq<char> {
    trim_end_matches(trim_end_matches(f, ".pkg.tar.zst"@), ".pkg.tar.xz"@)
}

/// A package file name is read exactly when its name without the extension
/// holds at least two `-`.
pub proof fn law_pkg_filename_needs_two_dashes(f: Seq<char>)
    ensures
        spec_parse_pkg_filename(f).is_none() <==> !exists|i: int, j: int|
            0 <= i < j < pkg_file_stem(f).len() && #[trigger] pkg_file_stem(f)[i] == '-'
                && #[trigger] pkg_file_stem(f)[j] == '-',
{
    let clean = pkg_file_stem(f);
    lemma_rfind_bounds(clean, '-');
    let a = rfind(clean, '-');
    if a >= 0 {
        let head = clean.take(a);
        lemma_rfind_bounds(head, '-');
        let b = rfind(head, '-');
        if b >= 0 {
            assert(clean[b] == head[b]);
            assert(clean[b] == '-' && clean[a] == '-');
        } else {
            assert forall|i: int, j: int| 0 <= i < j < clean.len() && #[trigger] clean[i] == '-' implies #[trigger] clean[j] != '-' by {
                if clean[j] == '-' {
                    assert(j <= a);
                    assert(i < a);
                    assert(head[i] == clean[i]);
                }
            }
        }
    } else {
        assert forall|i: int, j: int| 0 <= i < j < clean.len() && #[trigger] clean[i] == '-' implies #[trigger] clean[j] != '-' by {
        }
    }
}

// ----------------------------------------------------------------------------
// The advisor
// ----------------------------------------------------------------------------

/// Every build log gets a diagnosis for the package asked about, with at least
/// two suggested fixes.
pub proof fn law_diagnose_answers_package(p: Seq<char>, log: Seq<char>)
    ensures
        spec_diagnose(p, log) matches ResponseV::Diagnose { package, suggested_fixes, .. } && package == p
            && suggested_fixes.len() >= 2,
{
}

/// Every package gets an explanation naming it, with an ArchWiki reference.
pub proof fn law_explain_answers_package(p: Seq<char>, t: WikiTopic)
    ensures
        why_response(p, t) matches ResponseV::Why { package, archwiki_topic, key_insights, .. } && package == p
            && archwiki_topic.is_some() && key_insights.len() >= 2,
{
}

// ----------------------------------------------------------------------------
// The build container
// ----------------------------------------------------------------------------

/// The command run in the container comes last, after every mount and variable.
pub proof fn law_bwrap_command_last(
    c: SandboxConfig,
    h: HostLayout,
    cmd: Seq<Seq<char>>,
    binds: Seq<(Seq<char>, Seq<char>)>,
    envs: Seq<(Seq<char>, Seq<char>)>,
)
    ensures
        spec_bwrap_args(c, h, cmd, binds, envs).len() >= cmd.len(),
        spec_bwrap_args(c, h, cmd, binds, envs).skip(spec_bwrap_args(c, h, cmd, binds, envs).len() - cmd.len())
            == cmd,
{
    let a = spec_bwrap_args(c, h, cmd, binds, envs);
    assert(a.skip(a.len() - cmd.len()) =~= cmd);
}

/// `r` occurs in `s` as consecutive items starting at `i`.
pub open spec fn run_at(s: Seq<Seq<char>>, r: Seq<Seq<char>>, i: int) -> bool {
    0 <= i && i + r.len() <= s.len() && s.subrange(i, i + r.len()) == r
}

/// `r` occurs in `s` as consecutive items.
pub open spec fn has_run(s: Seq<Seq<char>>, r: Seq<Seq<char>>) -> bool {
    exists|i: int| #[trigger] run_at(s, r, i)
}

proof fn lemma_run_left(x: Seq<Seq<char>>, s: Seq<Seq<char>>, r: Seq<Seq<char>>)
    requires
        has_run(s, r),
    ensures
        has_run(x + s, r),
{
    let i = choose|i: int| #[trigger] run_at(s, r, i);
    assert((x + s).subrange(x.len() + i, x.len() + i + r.len()) =~= s.subrange(i, i + r.len()));
    assert(run_at(x + s, r, x.len() + i));
}

proof fn lemma_run_right(s: Seq<Seq<char>>, y: Seq<Seq<char>>, r: Seq<Seq<char>>)
    requires
        has_run(s, r),
    ensures
        has_run(s + y, r),
{
    let i = choose|i: int| #[trigger] run_at(s, r, i);
    assert((s + y).subrange(i, i + r.len()) =~= s.subrange(i, i + r.len()));
    assert(run_at(s + y, r, i));
}

proof fn lemma_run_self(r: Seq<Seq<char>>)
    ensures
        has_run(r, r),
{
    assert(r.subrange(0, r.len() as int) =~= r);
    assert(run_at(r, r, 0));
}

/// A single item that occurs as a run is in the sequence.
proof fn lemma_run_contains(s: Seq<Seq<char>>, x: Seq<char>)
    requires
        has_run(s, seq![x]),
    ensures
        s.contains(x),
{
    let i = choose|i: int| #[trigger] run_at(s, seq![x], i);
    assert(s.subrange(i, i + 1)[0] == s[i]);
}

/// A run of the build environment is a run of the argument list.
proof fn lemma_env_run_in_args(
    c: SandboxConfig,
    h: HostLayout,
    cmd: Seq<Seq<char>>,
    binds: Seq<(Seq<char>, Seq<char>)>,
    envs: Seq<(Seq<char>, Seq<char>)>,
    r: Seq<Seq<char>>,
)
    requires
        has_run(spec_build_env(c), r),
    ensures
        has_run(spec_bwrap_args(c, h, cmd, binds, envs), r),
{
    let pre = spec_mounts(c, h) + flag_pairs("--bind"@, binds) + isolation_args();
    lemma_run_left(pre, spec_build_env(c), r);
    lemma_run_right(pre + spec_build_env(c), flag_pairs("--setenv"@, envs), r);
    lemma_run_right(pre + spec_build_env(c) + flag_pairs("--setenv"@, envs), cmd, r);
}

/// The build environment sets the memory plan's flags and the job count for
/// make, ninja, cargo and CMake.
proof fn lemma_build_env_runs(c: SandboxConfig)
    ensures
        has_run(spec_build_env(c), setenv("CFLAGS"@, c.memory_profile.cflags@)),
        has_run(spec_build_env(c), setenv("CXXFLAGS"@, c.memory_profile.cxxflags@)),
        has_run(spec_build_env(c), setenv("MAKEFLAGS"@, "-j"@ + decimal(c.jobs as nat))),
        has_run(spec_build_env(c), setenv("NINJAFLAGS"@, "-j"@ + decimal(c.jobs as nat))),
        has_run(spec_build_env(c), setenv("CARGO_BUILD_JOBS"@, decimal(c.jobs as nat))),
        has_run(spec_build_env(c), setenv("CMAKE_BUILD_PARALLEL_LEVEL"@, decimal(c.jobs as nat))),
{
    let jobs = decimal(c.jobs as nat);
    let b = base_env();
    let cf = setenv("CFLAGS"@, c.memory_profile.cflags@);
    let cx = setenv("CXXFLAGS"@, c.memory_profile.cxxflags@);
    let mk = setenv("MAKEFLAGS"@, "-j"@ + jobs);
    let nj = setenv("NINJAFLAGS"@, "-j"@ + jobs);
    let cg = setenv("CARGO_BUILD_JOBS"@, jobs);
    let cm = setenv("CMAKE_BUILD_PARALLEL_LEVEL"@, jobs);
    let ld = setenv("LDFLAGS"@, spec_ldflags(c.use_mold));
    let rs = setenv(
        "RUSTFLAGS"@,
        c.memory_profile.rustflags@ + if c.use_mold {
            " -C link-arg=-fuse-ld=mold"@
        } else {
            seq![]
        },
    );
    let sc: Seq<Seq<char>> = if c.use_sccache { sccache_env() } else { seq![] };
    let p1 = b + cf;
    let p2 = p1 + cx;
    let p3 = p2 + mk;
    let p4 = p3 + nj;
    let p5 = p4 + cg;
    let p6 = p5 + cm;
    let p7 = p6 + ld;
    let p8 = p7 + rs;
    let e = p8 + sc;
    assert(spec_build_env(c) == e);
    lemma_run_self(cf);
    lemma_run_left(b, cf, cf);
    lemma_run_self(cx);
    lemma_run_left(p1, cx, cx);
    lemma_run_right(p1, cx, cf);
    lemma_run_self(mk);
    lemma_run_left(p2, mk, mk);
    lemma_run_right(p2, mk, cf);
    lemma_run_right(p2, mk, cx);
    lemma_run_self(nj);
    lemma_run_left(p3, nj, nj);
    lemma_run_right(p3, nj, cf);
    lemma_run_right(p3, nj, cx);
    lemma_run_right(p3, nj, mk);
    lemma_run_self(cg);
    lemma_run_left(p4, cg, cg);
    lemma_run_right(p4, cg, cf);
    lemma_run_right(p4, cg, cx);
    lemma_run_right(p4, cg, mk);
    lemma_run_right(p4, cg, nj);
    lemma_run_self(cm);
    lemma_run_left(p5, cm, cm);
    lemma_run_right(p5, cm, cf);
    lemma_run_right(p5, cm, cx);
    lemma_run_right(p5, cm, mk);
    lemma_run_right(p5, cm, nj);
    lemma_run_right(p5, cm, cg);
    lemma_run_right(p6, ld, cf);
    lemma_run_right(p6, ld, cx);
    lemma_run_right(p6, ld, mk);
    lemma_run_right(p6, ld, nj);
    lemma_run_right(p6, ld, cg);
    lemma_run_right(p6, ld, cm);
    lemma_run_right(p7, rs, cf);
    lemma_run_right(p7, rs, cx);
    lemma_run_right(p7, rs, mk);
    lemma_run_right(p7, rs, nj);
    lemma_run_right(p7, rs, cg);
    lemma_run_right(p7, rs, cm);
    lemma_run_right(p8, sc, cf);
    lemma_run_right(p8, sc, cx);
    lemma_run_right(p8, sc, mk);
    lemma_run_right(p8, sc, nj);
    lemma_run_right(p8, sc, cg);
    lemma_run_right(p8, sc, cm);
}

/// The mounts bind the build directory's scratch space over `/tmp`.
proof fn lemma_mounts_bind_tmp(c: SandboxConfig, h: HostLayout)
    ensures
        has_run(spec_mounts(c, h), seq!["--bind"@, scratch_dir(c.build_dir@), "/tmp"@]),
{
    let scratch = scratch_dir(c.build_dir@);
    let r = seq!["--bind"@, scratch, "/tmp"@];
    let binds = seq!["--bind"@, scratch, "/tmp"@, "--bind"@, scratch, "/var/tmp"@];
    assert(binds.subrange(0, 3) =~= r);
    assert(run_at(binds, r, 0));
    let shim = join_rel(shims_dir(c.build_dir@), "makepkg"@);
    let conf = join_rel(scratch, "pacman.conf"@);
    let lb = h.local_bin@;
    let gpg = h.gpg_dir@;
    let cache = join_rel(h.cache_dir@, "sccache"@);
    let pre = system_mounts() + (if h.makepkg_shim_written {
        seq!["--ro-bind"@, shim, "/usr/bin/makepkg"@]
    } else {
        seq![]
    });
    let q1 = seq![
        "--ro-bind"@, conf, "/etc/pacman.conf"@,
        "--ro-bind-try"@, "/etc/pacman.d"@, "/etc/pacman.d"@,
        "--ro-bind-try"@, "/etc/pacman.d/gnupg"@, "/etc/pacman.d/gnupg"@,
        "--ro-bind-try"@, "/usr/share/pacman/keyrings"@, "/usr/share/pacman/keyrings"@,
    ];
    let q2: Seq<Seq<char>> = if !is_default_gpg_dir(gpg) && h.gpg_dir_exists {
        seq!["--ro-bind-try"@, gpg, gpg]
    } else {
        seq![]
    };
    let q3: Seq<Seq<char>> = if h.local_bin_exists {
        seq!["--ro-bind"@, lb, "/usr/local/bin"@, "--ro-bind-try"@, lb, lb]
    } else {
        seq![]
    };
    let q4 = seq!["--bind"@, c.build_dir@, "/build"@, "--bind-try"@, cache, "/build/.sccache"@];
    assert(spec_mounts(c, h) == pre + binds + q1 + q2 + q3 + q4);
    lemma_run_left(pre, binds, r);
    lemma_run_right(pre + binds, q1, r);
    lemma_run_right(pre + binds + q1, q2, r);
    lemma_run_right(pre + binds + q1 + q2, q3, r);
    lemma_run_right(pre + binds + q1 + q2 + q3, q4, r);
}

/// The container runs the build with the memory plan's compiler flags and the
/// job count given to make, ninja, cargo and CMake, binds the build directory's
/// scratch space over `/tmp`, has its own user namespace, starts from an empty
/// environment, and runs the command last.
pub proof fn law_bwrap_runs(
    c: SandboxConfig,
    h: HostLayout,
    cmd: Seq<Seq<char>>,
    binds: Seq<(Seq<char>, Seq<char>)>,
    envs: Seq<(Seq<char>, Seq<char>)>,
)
    ensures
        has_run(spec_bwrap_args(c, h, cmd, binds, envs), setenv("MAKEFLAGS"@, "-j"@ + decimal(c.jobs as nat))),
        has_run(spec_bwrap_args(c, h, cmd, binds, envs), setenv("NINJAFLAGS"@, "-j"@ + decimal(c.jobs as nat))),
        has_run(spec_bwrap_args(c, h, cmd, binds, envs), setenv("CARGO_BUILD_JOBS"@, decimal(c.jobs as nat))),
        has_run(
            spec_bwrap_args(c, h, cmd, binds, envs),
            setenv("CMAKE_BUILD_PARALLEL_LEVEL"@, decimal(c.jobs as nat)),
        ),
        has_run(spec_bwrap_args(c, h, cmd, binds, envs), setenv("CFLAGS"@, c.memory_profile.cflags@)),
        has_run(spec_bwrap_args(c, h, cmd, binds, envs), setenv("CXXFLAGS"@, c.memory_profile.cxxflags@)),
        has_run(spec_bwrap_args(c, h, cmd, binds, envs), seq!["--bind"@, scratch_dir(c.build_dir@), "/tmp"@]),
        spec_bwrap_args(c, h, cmd, binds, envs).contains("--unshare-user"@),
        spec_bwrap_args(c, h, cmd, binds, envs).contains("--clearenv"@),
        spec_bwrap_args(c, h, cmd, binds, envs).skip(spec_bwrap_args(c, h, cmd, binds, envs).len() - cmd.len())
            == cmd,
{
    let m = spec_mounts(c, h);
    let f = flag_pairs("--bind"@, binds);
    let i = isolation_args();
    let e = spec_build_env(c);
    let g = flag_pairs("--setenv"@, envs);
    let a = spec_bwrap_args(c, h, cmd, binds, envs);
    let jobs = decimal(c.jobs as nat);
    lemma_build_env_runs(c);
    lemma_env_run_in_args(c, h, cmd, binds, envs, setenv("MAKEFLAGS"@, "-j"@ + jobs));
    lemma_env_run_in_args(c, h, cmd, binds, envs, setenv("NINJAFLAGS"@, "-j"@ + jobs));
    lemma_env_run_in_args(c, h, cmd, binds, envs, setenv("CARGO_BUILD_JOBS"@, jobs));
    lemma_env_run_in_args(c, h, cmd, binds, envs, setenv("CMAKE_BUILD_PARALLEL_LEVEL"@, jobs));
    lemma_env_run_in_args(c, h, cmd, binds, envs, setenv("CFLAGS"@, c.memory_profile.cflags@));
    lemma_env_run_in_args(c, h, cmd, binds, envs, setenv("CXXFLAGS"@, c.memory_profile.cxxflags@));
    let tmp = seq!["--bind"@, scratch_dir(c.build_dir@), "/tmp"@];
    lemma_mounts_bind_tmp(c, h);
    lemma_run_right(m, f, tmp);
    lemma_run_right(m + f, i, tmp);
    lemma_run_right(m + f + i, e, tmp);
    lemma_run_right(m + f + i + e, g, tmp);
    lemma_run_right(m + f + i + e + g, cmd, tmp);
    assert(i.subrange(0, 1) =~= seq!["--unshare-user"@]);
    assert(i.subrange(10, 11) =~= seq!["--clearenv"@]);
    assert(run_at(i, seq!["--unshare-user"@], 0));
    assert(run_at(i, seq!["--clearenv"@], 10));
    lemma_run_left(m + f, i, seq!["--unshare-user"@]);
    lemma_run_left(m + f, i, seq!["--clearenv"@]);
    lemma_run_right(m + f + i, e, seq!["--unshare-user"@]);
    lemma_run_right(m + f + i, e, seq!["--clearenv"@]);
    lemma_run_right(m + f + i + e, g, seq!["--unshare-user"@]);
    lemma_run_right(m + f + i + e, g, seq!["--clearenv"@]);
    lemma_run_right(m + f + i + e + g, cmd, seq!["--unshare-user"@]);
    lemma_run_right(m + f + i + e + g, cmd, seq!["--clearenv"@]);
    lemma_run_contains(a, "--unshare-user"@);
    lemma_run_contains(a, "--clearenv"@);
    assert(a.skip(a.len() - cmd.len()) =~= cmd);
}

// ----------------------------------------------------------------------------
// Scavenging
// ----------------------------------------------------------------------------

/// The fallback candidates are at most as many as asked for (the engine asks for
/// six), each in the pool, none fetched already and none a host base package.
pub proof fn law_fallback_candidates(pool: Seq<Seq<char>>, fetched: Seq<Seq<char>>, n: nat)
    ensures
        fallback_from(pool, fetched, n).len() <= n,
        forall|k: int|
            0 <= k < fallback_from(pool, fetched, n).len() ==> fallback_ok(
                fetched,
                #[trigger] fallback_from(pool, fetched, n)[k],
            ) && pool.contains(fallback_from(pool, fetched, n)[k]),
    decreases pool.len(),
{
    if pool.len() > 0 && n > 0 {
        let rest = pool.drop_first();
        if fallback_ok(fetched, pool[0]) {
            law_fallback_candidates(rest, fetched, (n - 1) as nat);
            let r = fallback_from(pool, fetched, n);
            assert forall|k: int| 0 <= k < r.len() implies fallback_ok(fetched, #[trigger] r[k]) && pool.contains(r[k]) by {
                if k == 0 {
                    assert(r[0] == pool[0]);
                } else {
                    let x = fallback_from(rest, fetched, (n - 1) as nat)[k - 1];
                    assert(r[k] == x);
                    let j = choose|j: int| 0 <= j < rest.len() && rest[j] == x;
                    assert(pool[j + 1] == x);
                }
            }
        } else {
            law_fallback_candidates(rest, fetched, n);
            let r = fallback_from(pool, fetched, n);
            assert forall|k: int| 0 <= k < r.len() implies fallback_ok(fetched, #[trigger] r[k]) && pool.contains(r[k]) by {
                let j = choose|j: int| 0 <= j < rest.len() && rest[j] == r[k];
                assert(pool[j + 1] == r[k]);
            }
        }
    }
}


// ----------------------------------------------------------------------------
// The container's pacman configuration
// ----------------------------------------------------------------------------

proof fn lemma_occurs_in_prefix(a: Seq<char>, b: Seq<char>, p: Seq<char>, i: int)
    requires
        occurs_at(a, p, i),
    ensures
        occurs_at(a + b, p, i),
{
    assert((a + b).subrange(i, i + p.len()) =~= a.subrange(i, i + p.len()));
}

proof fn lemma_occurs_in_suffix(a: Seq<char>, b: Seq<char>, p: Seq<char>, i: int)
    requires
        occurs_at(b, p, i),
    ensures
        occurs_at(a + b, p, a.len() + i),
{
    assert((a + b).subrange(a.len() + i, a.len() + i + p.len()) =~= b.subrange(i, i + p.len()));
}

/// Each line of a sequence occurs in the lines joined.
proof fn lemma_join_contains_line(ls: Seq<Seq<char>>, x: Seq<char>)
    requires
        ls.contains(x),
    ensures
        contains(join_lines(ls), x),
    decreases ls.len(),
{
    if ls.len() == 1 {
        assert(ls[0] == x);
        assert(join_lines(ls) == ls[0]);
        assert(occurs_at(x, x, 0)) by {
            assert(x.subrange(0, x.len() as int) =~= x);
        }
    } else {
        let front = join_lines(ls.drop_last()) + "\n"@;
        assert(join_lines(ls) == front + ls.last());
        if ls.last() == x {
            assert(occurs_at(x, x, 0)) by {
                assert(x.subrange(0, x.len() as int) =~= x);
            }
            lemma_occurs_in_suffix(front, x, x, 0);
        } else {
            let k = choose|k: int| 0 <= k < ls.len() && ls[k] == x;
            assert(ls.drop_last()[k] == x);
            lemma_join_contains_line(ls.drop_last(), x);
            let i = choose|i: int| occurs_at(join_lines(ls.drop_last()), x, i);
            lemma_occurs_in_prefix(join_lines(ls.drop_last()), "\n"@, x, i);
            lemma_occurs_in_prefix(front, ls.last(), x, i);
        }
    }
}

/// A text holding `h`, which holds `p`, holds `p`.
proof fn lemma_contains_trans(s: Seq<char>, h: Seq<char>, p: Seq<char>)
    requires
        contains(s, h),
        contains(h, p),
    ensures
        contains(s, p),
{
    let j = choose|j: int| occurs_at(s, h, j);
    let t = choose|t: int| occurs_at(h, p, t);
    assert(s.subrange(j + t, j + t + p.len()) =~= h.subrange(t, t + p.len()));
    assert(occurs_at(s, p, j + t));
}

proof fn lemma_options_index_bounds(ls: Seq<Seq<char>>)
    ensures
        0 <= options_index(ls) <= ls.len(),
    decreases ls.len(),
{
    if ls.len() > 0 {
        lemma_options_index_bounds(ls.drop_first());
    }
}

/// The lines of a configuration with some lines inserted after line `i`.
proof fn lemma_spliced_contains(mapped: Seq<Seq<char>>, extra: Seq<Seq<char>>, i: int, x: Seq<char>)
    requires
        0 <= i < mapped.len(),
        mapped.contains(x) || extra.contains(x),
    ensures
        (mapped.take(i + 1) + extra + mapped.skip(i + 1)).contains(x),
{
    let f = mapped.take(i + 1) + extra + mapped.skip(i + 1);
    if mapped.contains(x) {
        let k = choose|k: int| 0 <= k < mapped.len() && mapped[k] == x;
        if k <= i {
            assert(f[k] == x);
        } else {
            assert(f[k + extra.len()] == x);
        }
    } else {
        let k = choose|k: int| 0 <= k < extra.len() && extra[k] == x;
        assert(f[i + 1 + k] == x);
    }
}

/// The rewritten host lines, or the settings added to them, hold each of the
/// three `Never` settings.
proof fn lemma_conf_parts_hold(raw: Seq<char>, x: Seq<char>)
    requires
        x == "SigLevel = Never"@ || x == "LocalFileSigLevel = Never"@ || x == "RemoteFileSigLevel = Never"@,
    ensures
        rewritten_lines(raw).contains(x) || missing_levels(lines(raw)).contains(x),
{
    let ls = lines(raw);
    let mapped = rewritten_lines(raw);
    let extra = missing_levels(ls);
    let sig = "SigLevel = Never"@;
    let local = "LocalFileSigLevel = Never"@;
    let remote = "RemoteFileSigLevel = Never"@;
    if x == sig {
        if has_sig_line(ls) {
            let k = choose|k: int| 0 <= k < ls.len() && is_siglevel_line(#[trigger] ls[k]);
            assert(mapped[k] == sig);
        } else {
            assert(extra[0] == sig);
        }
    } else if x == local {
        if has_local_line(ls) {
            let k = choose|k: int|
                0 <= k < ls.len() && !is_siglevel_line(#[trigger] ls[k]) && is_local_siglevel_line(ls[k]);
            assert(mapped[k] == local);
        } else {
            let j: int = if has_sig_line(ls) { 0 } else { 1 };
            assert(extra[j] == local);
        }
    } else {
        if has_remote_line(ls) {
            let k = choose|k: int|
                0 <= k < ls.len() && !is_siglevel_line(#[trigger] ls[k]) && !is_local_siglevel_line(ls[k])
                    && is_remote_siglevel_line(ls[k]);
            assert(mapped[k] == remote);
        } else {
            assert(extra[extra.len() - 1] == remote);
        }
    }
}

/// The lines of the container's configuration hold each of the three `Never` settings.
proof fn lemma_conf_lines_hold(raw: Seq<char>, x: Seq<char>)
    requires
        x == "SigLevel = Never"@ || x == "LocalFileSigLevel = Never"@ || x == "RemoteFileSigLevel = Never"@,
    ensures
        sandbox_conf_lines(raw).contains(x),
{
    let ls = lines(raw);
    let mapped = rewritten_lines(raw);
    let extra = missing_levels(ls);
    let out = sandbox_conf_lines(raw);
    lemma_conf_parts_hold(raw, x);
    lemma_options_index_bounds(mapped);
    let i = options_index(mapped);
    if extra.len() == 0 {
        assert(out == mapped);
    } else if i < mapped.len() {
        lemma_spliced_contains(mapped, extra, i, x);
    } else {
        if mapped.contains(x) {
            let k = choose|k: int| 0 <= k < mapped.len() && mapped[k] == x;
            assert(out[1 + extra.len() + 1 + k] == x);
        } else {
            let k = choose|k: int| 0 <= k < extra.len() && extra[k] == x;
            assert(out[1 + k] == x);
        }
    }
}

/// The pacman configuration a build container gets always turns signature
/// checking off: whatever the host's file says, it holds `SigLevel = Never`,
/// `LocalFileSigLevel = Never` and `RemoteFileSigLevel = Never`.
pub proof fn law_sandbox_conf_disables_signatures(raw: Seq<char>)
    ensures
        contains(spec_sandbox_conf(raw), "SigLevel = Never"@),
        contains(spec_sandbox_conf(raw), "LocalFileSigLevel = Never"@),
        contains(spec_sandbox_conf(raw), "RemoteFileSigLevel = Never"@),
{
    let sig = "SigLevel = Never"@;
    let local = "LocalFileSigLevel = Never"@;
    let remote = "RemoteFileSigLevel = Never"@;
    if trim(raw).len() == 0 {
        reveal_strlit("[options]\nRootDir = /\nDBPath = /var/lib/pacman/\nCacheDir = /var/cache/pacman/pkg/\nGPGDir = /etc/pacman.d/gnupg/\nArchitecture = auto\nSigLevel = Never\nLocalFileSigLevel = Never\nRemoteFileSigLevel = Never\n");
        reveal_strlit("SigLevel = Never");
        reveal_strlit("LocalFileSigLevel = Never");
        reveal_strlit("RemoteFileSigLevel = Never");
        let d = default_sandbox_conf();
        assert(d.subrange(132, 148) =~= sig);
        assert(occurs_at(d, sig, 132));
        assert(d.subrange(149, 174) =~= local);
        assert(occurs_at(d, local, 149));
        assert(d.subrange(175, 201) =~= remote);
        assert(occurs_at(d, remote, 175));
    } else {
        lemma_conf_lines_hold(raw, sig);
        lemma_conf_lines_hold(raw, local);
        lemma_conf_lines_hold(raw, remote);
        lemma_join_contains_line(sandbox_conf_lines(raw), sig);
        lemma_join_contains_line(sandbox_conf_lines(raw), local);
        lemma_join_contains_line(sandbox_conf_lines(raw), remote);
    }
}

/// A line whose signature-level setting, if it has one, already says `Never`.
pub open spec fn settled_line(l: Seq<char>) -> bool {
    &&& is_siglevel_line(l) ==> l == "SigLevel = Never"@
    &&& is_local_siglevel_line(l) ==> l == "LocalFileSigLevel = Never"@
    &&& is_remote_siglevel_line(l) ==> l == "RemoteFileSigLevel = Never"@
}

/// A line added to the host's lines: an `[options]` header, a blank line, or a
/// `Never` setting.
pub open spec fn added_line(l: Seq<char>) -> bool {
    ||| l == "[options]"@
    ||| l.len() == 0
    ||| l == "SigLevel = Never"@
    ||| l == "LocalFileSigLevel = Never"@
    ||| l == "RemoteFileSigLevel = Never"@
}

/// Trimming a text that neither begins nor ends with white space leaves it as
/// it is, and its lower-case form begins with its first letter in lower case.
proof fn lemma_trim_plain(l: Seq<char>)
    requires
        l.len() > 0,
        !is_ws(l[0]),
        !is_ws(l.last()),
    ensures
        trim(l) == l,
        to_ascii_lower(trim(l))[0] == ascii_lower(l[0]),
{
    assert(trim_start(l) == l);
    assert(trim_end(l) == l);
}

/// Which first letters each kind of signature-level line can have.
proof fn lemma_kinds_by_first(l: Seq<char>)
    requires
        l.len() > 0,
        !is_ws(l[0]),
        !is_ws(l.last()),
    ensures
        is_siglevel_line(l) ==> ascii_lower(l[0]) == 's',
        is_local_siglevel_line(l) ==> ascii_lower(l[0]) == 'l' || ascii_lower(l[0]) == '#',
        is_remote_siglevel_line(l) ==> ascii_lower(l[0]) == 'r' || ascii_lower(l[0]) == '#',
{
    lemma_trim_plain(l);
    let lower = to_ascii_lower(trim(l));
    reveal_strlit("siglevel");
    reveal_strlit("localfilesiglevel");
    reveal_strlit("#localfilesiglevel");
    reveal_strlit("# localfilesiglevel");
    reveal_strlit("remotefilesiglevel");
    reveal_strlit("#remotefilesiglevel");
    reveal_strlit("# remotefilesiglevel");
    if starts_with(lower, "siglevel"@) {
        assert(lower.take(8)[0] == lower[0]);
    }
    if starts_with(lower, "localfilesiglevel"@) {
        assert(lower.take(17)[0] == lower[0]);
    }
    if starts_with(lower, "#localfilesiglevel"@) {
        assert(lower.take(18)[0] == lower[0]);
    }
    if starts_with(lower, "# localfilesiglevel"@) {
        assert(lower.take(19)[0] == lower[0]);
    }
    if starts_with(lower, "remotefilesiglevel"@) {
        assert(lower.take(18)[0] == lower[0]);
    }
    if starts_with(lower, "#remotefilesiglevel"@) {
        assert(lower.take(19)[0] == lower[0]);
    }
    if starts_with(lower, "# remotefilesiglevel"@) {
        assert(lower.take(20)[0] == lower[0]);
    }
}

/// The lines that the configuration adds never carry a signature level other
/// than `Never`.
proof fn lemma_added_settled(l: Seq<char>)
    requires
        added_line(l),
    ensures
        settled_line(l),
{
    reveal_strlit("[options]");
    reveal_strlit("SigLevel = Never");
    reveal_strlit("LocalFileSigLevel = Never");
    reveal_strlit("RemoteFileSigLevel = Never");
    reveal_strlit("siglevel");
    reveal_strlit("localfilesiglevel");
    reveal_strlit("#localfilesiglevel");
    reveal_strlit("# localfilesiglevel");
    reveal_strlit("remotefilesiglevel");
    reveal_strlit("#remotefilesiglevel");
    reveal_strlit("# remotefilesiglevel");
    if l.len() == 0 {
        assert(trim_start(l) == l);
        assert(trim_end(l) == l);
        assert(to_ascii_lower(trim(l)).len() == 0);
    } else {
        assert(!is_ws(l[0]));
        assert(!is_ws(l.last()));
        lemma_kinds_by_first(l);
    }
}

/// Rewriting a line leaves it settled.
proof fn lemma_rewrite_settled(l: Seq<char>)
    ensures
        settled_line(rewrite_line(l)),
{
    if is_siglevel_line(l) || is_local_siglevel_line(l) || is_remote_siglevel_line(l) {
        lemma_added_settled(rewrite_line(l));
    }
}

/// Every signature-level line of the container's configuration says `Never`:
/// an active `SigLevel` line is `SigLevel = Never`, a `LocalFileSigLevel` line
/// is `LocalFileSigLevel = Never` and a `RemoteFileSigLevel` line is
/// `RemoteFileSigLevel = Never`.
pub proof fn law_sandbox_conf_lines_settled(raw: Seq<char>)
    requires
        trim(raw).len() > 0,
    ensures
        spec_sandbox_conf(raw) == join_lines(sandbox_conf_lines(raw)),
        forall|j: int|
            0 <= j < sandbox_conf_lines(raw).len() ==> settled_line(#[trigger] sandbox_conf_lines(raw)[j]),
{
    let ls = lines(raw);
    let mapped = rewritten_lines(raw);
    let extra = missing_levels(ls);
    let out = sandbox_conf_lines(raw);
    lemma_options_index_bounds(mapped);
    let i = options_index(mapped);
    assert forall|k: int| 0 <= k < mapped.len() implies settled_line(#[trigger] mapped[k]) by {
        lemma_rewrite_settled(ls[k]);
    }
    assert forall|k: int| 0 <= k < extra.len() implies settled_line(#[trigger] extra[k]) by {
        lemma_added_settled(extra[k]);
    }
    assert forall|j: int| 0 <= j < out.len() implies settled_line(#[trigger] out[j]) by {
        if extra.len() == 0 {
            assert(out[j] == mapped[j]);
        } else if i < mapped.len() {
            if j <= i {
                assert(out[j] == mapped[j]);
            } else if j < i + 1 + extra.len() {
                assert(out[j] == extra[j - i - 1]);
            } else {
                assert(out[j] == mapped[j - extra.len()]);
            }
        } else {
            if j == 0 {
                lemma_added_settled("[options]"@);
            } else if j <= extra.len() {
                assert(out[j] == extra[j - 1]);
            } else if j == extra.len() + 1 {
                lemma_added_settled(Seq::<char>::empty());
            } else {
                assert(out[j] == mapped[j - extra.len() - 2]);
            }
        }
    }
}

/// The container's configuration keeps the host's lines in their order: it is
/// the host's lines, each rewritten, with one block of added lines (an
/// `[options]` header, a blank line, `Never` settings) put in at one place; and
/// rewriting leaves every line that is no signature-level setting as it was.
pub proof fn law_sandbox_conf_keeps_host_lines(raw: Seq<char>)
    requires
        trim(raw).len() > 0,
    ensures
        exists|a: int, ins: Seq<Seq<char>>|
            0 <= a <= rewritten_lines(raw).len() && sandbox_conf_lines(raw) == #[trigger] (
            rewritten_lines(raw).take(a) + ins) + rewritten_lines(raw).skip(a) && (forall|j: int|
                0 <= j < ins.len() ==> added_line(#[trigger] ins[j])),
        forall|k: int|
            0 <= k < lines(raw).len() && !is_siglevel_line(#[trigger] lines(raw)[k])
                && !is_local_siglevel_line(lines(raw)[k]) && !is_remote_siglevel_line(lines(raw)[k])
                ==> rewritten_lines(raw)[k] == lines(raw)[k],
{
    let ls = lines(raw);
    let mapped = rewritten_lines(raw);
    let extra = missing_levels(ls);
    let out = sandbox_conf_lines(raw);
    lemma_options_index_bounds(mapped);
    let i = options_index(mapped);
    assert forall|k: int| 0 <= k < extra.len() implies added_line(#[trigger] extra[k]) by {
    }
    if extra.len() == 0 {
        let ins = Seq::<Seq<char>>::empty();
        assert(out =~= (mapped.take(0) + ins) + mapped.skip(0));
    } else if i < mapped.len() {
        assert(out =~= (mapped.take(i + 1) + extra) + mapped.skip(i + 1));
    } else {
        let ins = seq!["[options]"@] + extra + seq![Seq::<char>::empty()];
        assert forall|j: int| 0 <= j < ins.len() implies added_line(#[trigger] ins[j]) by {
            if 0 < j < ins.len() - 1 {
                assert(ins[j] == extra[j - 1]);
            }
        }
        assert(out =~= (mapped.take(0) + ins) + mapped.skip(0));
    }
}

/// `l` holds no line break.
pub open spec fn no_newline(l: Seq<char>) -> bool {
    forall|i: int| 0 <= i < l.len() ==> l[i] != '\n'
}

/// `l` ends with a carriage return.
pub open spec fn ends_with_cr(l: Seq<char>) -> bool {
    l.len() > 0 && l.last() == '\r'
}

proof fn lemma_find_from_at(s: Seq<char>, c: char, i: int, j: int)
    requires
        0 <= i <= j <= s.len(),
        forall|k: int| i <= k < j ==> s[k] != c,
        j < s.len() ==> s[j] == c,
    ensures
        find_from(s, c, i) == j,
{
    lemma_find_from_bounds(s, c, i);
    let f = find_from(s, c, i);
    if f < j {
        assert(s[f] == c);
    } else if f > j {
        assert(s[j] != c);
    }
}

/// The lines of a text after a prefix are the lines of the rest.
proof fn lemma_lines_from_shift(a: Seq<char>, b: Seq<char>, i: int)
    requires
        0 <= i,
    ensures
        lines_from(a + b, a.len() + i) == lines_from(b, i),
    decreases b.len() - i,
{
    let s = a + b;
    if i < b.len() {
        lemma_find_from_bounds(b, '\n', i);
        let j = find_from(b, '\n', i);
        assert forall|k: int| a.len() + i <= k < a.len() + j implies s[k] != '\n' by {
            assert(s[k] == b[k - a.len()]);
        }
        if j < b.len() {
            assert(s[a.len() + j] == b[j]);
        }
        lemma_find_from_at(s, '\n', a.len() + i, a.len() + j);
        if j < b.len() {
            assert(s.subrange(a.len() + i, a.len() + j) =~= b.subrange(i, j));
            lemma_lines_from_shift(a, b, j + 1);
        } else {
            assert(s.subrange(a.len() + i, s.len() as int) =~= b.subrange(i, b.len() as int));
        }
    }
}

proof fn lemma_join_front(x: Seq<char>, r: Seq<Seq<char>>)
    requires
        r.len() > 0,
    ensures
        join_lines(seq![x] + r) == x + "\n"@ + join_lines(r),
    decreases r.len(),
{
    let l = seq![x] + r;
    assert(l.drop_last() =~= seq![x] + r.drop_last());
    assert(l.last() == r.last());
    if r.len() == 1 {
        assert(join_lines(seq![x]) == x);
        assert(join_lines(r) == r[0]);
    } else {
        lemma_join_front(x, r.drop_last());
        assert(join_lines(l) =~= x + "\n"@ + (join_lines(r.drop_last()) + "\n"@ + r.last()));
    }
}

/// Splitting lines joined with line breaks gives them back, but for a last
/// empty line, when none holds a line break and none but the last ends with a
/// carriage return.
proof fn lemma_lines_of_join(ls: Seq<Seq<char>>)
    requires
        ls.len() > 0,
        forall|k: int| 0 <= k < ls.len() ==> no_newline(#[trigger] ls[k]),
        forall|k: int| 0 <= k < ls.len() - 1 ==> !ends_with_cr(#[trigger] ls[k]),
    ensures
        lines(join_lines(ls)) == (if ls.last().len() == 0 { ls.drop_last() } else { ls }),
    decreases ls.len(),
{
    reveal_strlit("\n");
    let x = ls[0];
    assert(no_newline(x));
    if ls.len() == 1 {
        assert(join_lines(ls) == x);
        if x.len() > 0 {
            lemma_find_from_at(x, '\n', 0, x.len() as int);
            assert(x.subrange(0, x.len() as int) =~= x);
            assert(ls =~= seq![x]);
        } else {
            assert(ls.drop_last() =~= Seq::<Seq<char>>::empty());
        }
    } else {
        let r = ls.drop_first();
        assert(ls =~= seq![x] + r);
        lemma_join_front(x, r);
        let j = join_lines(r);
        let s = x + "\n"@ + j;
        assert(join_lines(ls) == s);
        assert forall|k: int| 0 <= k < x.len() implies s[k] != '\n' by {
            assert(s[k] == x[k]);
        }
        assert(s[x.len() as int] == '\n');
        lemma_find_from_at(s, '\n', 0, x.len() as int);
        assert(s.subrange(0, x.len() as int) =~= x);
        assert(!ends_with_cr(ls[0]));
        assert(strip_cr(x) == x);
        assert forall|k: int| 0 <= k < r.len() implies no_newline(#[trigger] r[k]) by {
            assert(r[k] == ls[k + 1]);
        }
        assert forall|k: int| 0 <= k < r.len() - 1 implies !ends_with_cr(#[trigger] r[k]) by {
            assert(r[k] == ls[k + 1]);
        }
        lemma_lines_of_join(r);
        assert(s =~= (x + "\n"@) + j);
        lemma_lines_from_shift(x + "\n"@, j, 0);
        assert(lines(s) == seq![x] + lines(j));
        if ls.last().len() == 0 {
            assert(ls.drop_last() =~= seq![x] + r.drop_last());
        }
    }
}

/// Host lines hold no line break.
proof fn lemma_lines_no_newline(s: Seq<char>, i: int)
    ensures
        forall|k: int| 0 <= k < lines_from(s, i).len() ==> no_newline(#[trigger] lines_from(s, i)[k]),
    decreases s.len() - i,
{
    if 0 <= i < s.len() {
        lemma_find_from_bounds(s, '\n', i);
        let j = find_from(s, '\n', i);
        if j < s.len() {
            lemma_lines_no_newline(s, j + 1);
            let first = strip_cr(s.subrange(i, j));
            assert(no_newline(first));
            assert forall|k: int| 0 <= k < lines_from(s, i).len() implies no_newline(#[trigger] lines_from(s, i)[k]) by {
                if k > 0 {
                    assert(lines_from(s, i)[k] == lines_from(s, j + 1)[k - 1]);
                }
            }
        } else {
            assert(no_newline(s.subrange(i, s.len() as int)));
        }
    }
}

/// The lines of the container's pacman.conf text are the lines it is joined
/// from (see [`law_sandbox_conf_lines_settled`] and
/// [`law_sandbox_conf_keeps_host_lines`]), but for a last empty line, unless a
/// line other than the last ends with a carriage return (a host line that ended
/// in two of them).
pub proof fn law_sandbox_conf_text_lines(raw: Seq<char>)
    requires
        trim(raw).len() > 0,
        forall|k: int|
            0 <= k < sandbox_conf_lines(raw).len() - 1 ==> !ends_with_cr(#[trigger] sandbox_conf_lines(raw)[k]),
    ensures
        sandbox_conf_lines(raw).len() > 0,
        lines(spec_sandbox_conf(raw)) == (if sandbox_conf_lines(raw).last().len() == 0 {
            sandbox_conf_lines(raw).drop_last()
        } else {
            sandbox_conf_lines(raw)
        }),
{
    let ls = lines(raw);
    let mapped = rewritten_lines(raw);
    let extra = missing_levels(ls);
    let out = sandbox_conf_lines(raw);
    lemma_options_index_bounds(mapped);
    let i = options_index(mapped);
    assert(raw.len() > 0) by {
        if raw.len() == 0 {
            assert(trim_start(raw) == raw);
            assert(trim_end(raw) == raw);
        }
    }
    assert(ls.len() > 0);
    lemma_lines_no_newline(raw, 0);
    reveal_strlit("[options]");
    reveal_strlit("SigLevel = Never");
    reveal_strlit("LocalFileSigLevel = Never");
    reveal_strlit("RemoteFileSigLevel = Never");
    assert forall|l: Seq<char>| added_line(l) implies no_newline(l) by {}
    assert forall|k: int| 0 <= k < mapped.len() implies no_newline(#[trigger] mapped[k]) by {
        assert(no_newline(ls[k]));
    }
    assert forall|k: int| 0 <= k < extra.len() implies no_newline(#[trigger] extra[k]) by {
        assert(added_line(extra[k]));
    }
    assert forall|j: int| 0 <= j < out.len() implies no_newline(#[trigger] out[j]) by {
        if extra.len() == 0 {
            assert(out[j] == mapped[j]);
        } else if i < mapped.len() {
            if j <= i {
                assert(out[j] == mapped[j]);
            } else if j < i + 1 + extra.len() {
                assert(out[j] == extra[j - i - 1]);
            } else {
                assert(out[j] == mapped[j - extra.len()]);
            }
        } else {
            if j == 0 {
                assert(added_line(out[j]));
            } else if j <= extra.len() {
                assert(out[j] == extra[j - 1]);
            } else if j == extra.len() + 1 {
                assert(out[j].len() == 0);
            } else {
                assert(out[j] == mapped[j - extra.len() - 2]);
            }
        }
    }
    lemma_lines_of_join(out);
}


// ----------------------------------------------------------------------------
// GnuPG configuration files
// ----------------------------------------------------------------------------

proof fn lemma_find_in_prefix(a: Seq<char>, b: Seq<char>, c: char, i: int)
    requires
        0 <= i < a.len(),
        a.last() == c,
    ensures
        find_from(a + b, c, i) == find_from(a, c, i),
        i <= find_from(a, c, i) < a.len(),
    decreases a.len() - i,
{
    if a[i] != c {
        lemma_find_in_prefix(a, b, c, i + 1);
    }
}

proof fn lemma_find_shift(a: Seq<char>, b: Seq<char>, c: char, i: int)
    requires
        0 <= i,
    ensures
        find_from(a + b, c, a.len() + i) == a.len() + find_from(b, c, i),
    decreases b.len() - i,
{
    if i < b.len() && b[i] != c {
        lemma_find_shift(a, b, c, i + 1);
    }
}

proof fn lemma_lines_shift(a: Seq<char>, b: Seq<char>, i: int)
    requires
        0 <= i,
    ensures
        lines_from(a + b, a.len() + i) == lines_from(b, i),
    decreases b.len() - i,
{
    if i < b.len() {
        let s = a + b;
        lemma_find_shift(a, b, '\n', i);
        crate::text::lemma_find_from_bounds(b, '\n', i);
        let j = find_from(b, '\n', i);
        if j < b.len() {
            assert(s.subrange(a.len() + i, a.len() + j) =~= b.subrange(i, j));
            lemma_lines_shift(a, b, j + 1);
        } else {
            assert(s.subrange(a.len() + i, s.len() as int) =~= b.subrange(i, b.len() as int));
        }
    }
}

proof fn lemma_lines_prefix(a: Seq<char>, b: Seq<char>, i: int)
    requires
        a.len() > 0,
        a.last() == '\n',
        0 <= i <= a.len(),
    ensures
        lines_from(a + b, i) == lines_from(a, i) + lines_from(a + b, a.len() as int),
    decreases a.len() - i,
{
    if i < a.len() {
        lemma_find_in_prefix(a, b, '\n', i);
        let j = find_from(a, '\n', i);
        assert((a + b).subrange(i, j) =~= a.subrange(i, j));
        lemma_lines_prefix(a, b, j + 1);
        assert(lines_from(a + b, i) =~= lines_from(a, i) + lines_from(a + b, a.len() as int));
    } else {
        assert(lines_from(a, i) =~= Seq::<Seq<char>>::empty());
        assert(lines_from(a + b, i) =~= lines_from(a, i) + lines_from(a + b, a.len() as int));
    }
}

/// The lines of a text that is empty or ends with a newline, followed by more.
proof fn lemma_lines_concat(a: Seq<char>, b: Seq<char>)
    requires
        a.len() == 0 || a.last() == '\n',
    ensures
        lines(a + b) == lines(a) + lines(b),
{
    if a.len() == 0 {
        assert(a + b =~= b);
        assert(lines(a) =~= Seq::<Seq<char>>::empty());
        assert(lines(a) + lines(b) =~= lines(b));
    } else {
        lemma_lines_prefix(a, b, 0);
        lemma_lines_shift(a, b, 0);
        assert(a.len() + 0 == a.len());
    }
}

/// An option that sits on a line of its own as it is written.
pub open spec fn plain_option(o: Seq<char>) -> bool {
    &&& o.len() > 0
    &&& !o.contains('\n')
    &&& !is_ws(o[0])
    &&& !is_ws(o.last())
}

proof fn lemma_option_line(o: Seq<char>)
    requires
        plain_option(o),
    ensures
        lines(o + "\n"@) == seq![o],
        trim(o) == o,
{
    reveal_strlit("\n");
    let s = o + "\n"@;
    assert forall|k: int| 0 <= k < o.len() implies s[k] != '\n' by {
        if s[k] == '\n' {
            assert(o[k] == '\n');
            assert(o.contains('\n'));
        }
    }
    assert(find_from(s, '\n', 0) == o.len()) by {
        lemma_find_skips(s, 0, o.len() as int);
    }
    assert(s.subrange(0, o.len() as int) =~= o);
    assert(strip_cr(o) == o) by {
        assert(o.last() != '\r') by {
            assert(is_ws('\r'));
        }
    }
    assert(lines_from(s, (o.len() + 1) as int) =~= Seq::<Seq<char>>::empty());
    assert(lines(s) =~= seq![o]);
    assert(trim_start(o) == o);
    assert(trim_end(o) == o);
}

proof fn lemma_find_skips(s: Seq<char>, i: int, n: int)
    requires
        0 <= i <= n < s.len(),
        s[n] == '\n',
        forall|k: int| i <= k < n ==> s[k] != '\n',
    ensures
        find_from(s, '\n', i) == n,
    decreases n - i,
{
    if i < n {
        lemma_find_skips(s, i + 1, n);
    }
}

/// Appending an option line keeps the options already there and adds this one.
proof fn lemma_append_option(c: Seq<char>, o: Seq<char>, x: Seq<char>)
    requires
        c.len() == 0 || c.last() == '\n',
        plain_option(o),
    ensures
        has_option_line(c, x) ==> has_option_line(c + o + "\n"@, x),
        has_option_line(c + o + "\n"@, o),
        (c + o + "\n"@).last() == '\n',
{
    reveal_strlit("\n");
    lemma_lines_concat(c, o + "\n"@);
    lemma_option_line(o);
    assert(c + o + "\n"@ =~= c + (o + "\n"@));
    let ls = lines(c + o + "\n"@);
    assert(ls == lines(c) + seq![o]);
    assert(ls[lines(c).len() as int] == o);
    if has_option_line(c, x) {
        let k = choose|k: int| 0 <= k < lines(c).len() && trim(#[trigger] lines(c)[k]) == x;
        assert(ls[k] == lines(c)[k]);
    }
}

/// After the options are added, each of them has a line, and the text is empty
/// or ends with a newline.
proof fn lemma_add_options_complete(c: Seq<char>, opts: Seq<Seq<char>>)
    requires
        c.len() == 0 || c.last() == '\n',
        forall|k: int| 0 <= k < opts.len() ==> plain_option(#[trigger] opts[k]),
    ensures
        add_options(c, opts).0.len() == 0 || add_options(c, opts).0.last() == '\n',
        forall|k: int| 0 <= k < opts.len() ==> has_option_line(add_options(c, opts).0, #[trigger] opts[k]),
    decreases opts.len(),
{
    if opts.len() > 0 {
        let front = opts.drop_last();
        lemma_add_options_complete(c, front);
        let (c1, _) = add_options(c, front);
        let o = opts.last();
        assert(plain_option(o)) by {
            assert(opts[opts.len() - 1] == o);
        }
        if !has_option_line(c1, o) {
            assert forall|k: int| 0 <= k < opts.len() implies has_option_line(
                add_options(c, opts).0,
                #[trigger] opts[k],
            ) by {
                lemma_append_option(c1, o, opts[k]);
                if k < opts.len() - 1 {
                    assert(front[k] == opts[k]);
                }
            }
            lemma_append_option(c1, o, o);
        } else {
            assert forall|k: int| 0 <= k < opts.len() implies has_option_line(
                add_options(c, opts).0,
                #[trigger] opts[k],
            ) by {
                if k < opts.len() - 1 {
                    assert(front[k] == opts[k]);
                }
            }
        }
    }
}

/// Options that all have a line already are not added again.
proof fn lemma_add_options_present(c: Seq<char>, opts: Seq<Seq<char>>)
    requires
        forall|k: int| 0 <= k < opts.len() ==> has_option_line(c, #[trigger] opts[k]),
    ensures
        add_options(c, opts) == (c, false),
    decreases opts.len(),
{
    if opts.len() > 0 {
        let front = opts.drop_last();
        assert forall|k: int| 0 <= k < front.len() implies has_option_line(c, #[trigger] front[k]) by {
            assert(front[k] == opts[k]);
        }
        lemma_add_options_present(c, front);
        assert(has_option_line(c, opts[opts.len() - 1]));
    }
}

/// Completing `gpg.conf` a second time adds nothing, when the file was empty or
/// ended with a newline: every required option then has a line of its own.
pub proof fn law_complete_gpg_conf_idempotent(content: Seq<char>)
    requires
        content.len() == 0 || content.last() == '\n',
    ensures
        forall|k: int| 0 <= k < required_gpg_options().len() ==> has_option_line(
            add_options(content, required_gpg_options()).0,
            #[trigger] required_gpg_options()[k],
        ),
        add_options(add_options(content, required_gpg_options()).0, required_gpg_options()) == (
            add_options(content, required_gpg_options()).0,
            false,
        ),
{
    let opts = required_gpg_options();
    reveal_strlit("no-greeting");
    reveal_strlit("no-permission-warning");
    reveal_strlit("keyserver-options timeout=10");
    reveal_strlit("keyserver-options import-clean");
    reveal_strlit("keyserver-options no-self-sigs-only");
    assert forall|k: int| 0 <= k < opts.len() implies plain_option(#[trigger] opts[k]) by {
        let o = opts[k];
        assert(o.len() > 0);
        assert(!is_ws(o[0]));
        assert(!is_ws(o.last()));
        assert(!o.contains('\n')) by {
            if o.contains('\n') {
                let j = choose|j: int| 0 <= j < o.len() && o[j] == '\n';
                assert(o[j] != '\n');
            }
        }
    }
    lemma_add_options_complete(content, opts);
    lemma_add_options_present(add_options(content, opts).0, opts);
}

/// Completing `gpg-agent.conf` a second time changes nothing, when the file was
/// empty or ended with a newline.
pub proof fn law_complete_agent_conf_idempotent(content: Seq<char>)
    requires
        content.len() == 0 || content.last() == '\n',
    ensures
        has_option_line(content + "disable-scdaemon\n"@, "disable-scdaemon"@),
{
    reveal_strlit("disable-scdaemon\n");
    reveal_strlit("disable-scdaemon");
    reveal_strlit("\n");
    let o = "disable-scdaemon"@;
    assert(plain_option(o)) by {
        assert(!is_ws(o[0]));
        assert(!is_ws(o.last()));
        assert(!o.contains('\n')) by {
            if o.contains('\n') {
                let j = choose|j: int| 0 <= j < o.len() && o[j] == '\n';
                assert(o[j] != '\n');
            }
        }
    }
    lemma_append_option(content, o, o);
    assert(content + "disable-scdaemon\n"@ =~= content + o + "\n"@);
}


// ----------------------------------------------------------------------------
// The memory-pressure sentinel
// ----------------------------------------------------------------------------

/// Signals that alternate, starting with `next`: freeze, resume, freeze, ...
pub open spec fn alternates(s: Seq<PsiAction>, next: PsiAction) -> bool
    decreases s.len(),
{
    s.len() == 0 || (s[0] == next && alternates(
        s.drop_first(),
        if next == PsiAction::Freeze { PsiAction::Resume } else { PsiAction::Freeze },
    ))
}

/// Whatever the readings, a sentinel that starts on a running build freezes and
/// resumes it in turn, never twice the same in a row, and leaves it resumed when
/// it stops (a frozen build is resumed first).
pub proof fn law_sentinel_resumes_what_it_froze(frozen: bool, readings: Seq<Option<bool>>)
    ensures
        alternates(psi_signals(frozen, readings), if frozen { PsiAction::Resume } else { PsiAction::Freeze }),
        psi_signals(frozen, readings).len() > 0 ==> psi_signals(frozen, readings).last() == PsiAction::Resume,
        frozen ==> psi_signals(frozen, readings).len() > 0,
    decreases readings.len(),
{
    let s = psi_signals(frozen, readings);
    let first = if frozen { PsiAction::Resume } else { PsiAction::Freeze };
    if readings.len() == 0 {
        if frozen {
            assert(s == seq![PsiAction::Resume]);
            assert(s.drop_first() =~= Seq::<PsiAction>::empty());
            assert(alternates(s.drop_first(), PsiAction::Freeze));
        }
    } else {
        let (f, a) = psi_step(frozen, readings[0]);
        law_sentinel_resumes_what_it_froze(f, readings.drop_first());
        let rest = psi_signals(f, readings.drop_first());
        if a == PsiAction::Wait {
            assert(f == frozen);
            assert(s == rest);
        } else {
            assert(s == seq![a] + rest);
            assert(s.drop_first() =~= rest);
            assert(a == first);
            assert(f == !frozen);
            assert(alternates(rest, if f { PsiAction::Resume } else { PsiAction::Freeze }));
            assert(s[0] == first);
            if rest.len() > 0 {
                assert(s.last() == rest.last());
            } else {
                assert(!f);
                assert(a == PsiAction::Resume);
            }
        }
    }
}


// ----------------------------------------------------------------------------
// Fingerprints
// ----------------------------------------------------------------------------

proof fn lemma_alnum_concat(a: Seq<char>, b: Seq<char>)
    ensures
        alnum_only(a + b) == alnum_only(a) + alnum_only(b),
    decreases b.len(),
{
    if b.len() == 0 {
        assert(a + b =~= a);
        assert(alnum_only(a) + alnum_only(b) =~= alnum_only(a));
    } else {
        assert((a + b).drop_last() =~= a + b.drop_last());
        assert((a + b).last() == b.last());
        lemma_alnum_concat(a, b.drop_last());
        if is_ascii_alnum(b.last()) {
            assert(alnum_only(a + b) =~= alnum_only(a) + alnum_only(b));
        } else {
            assert(alnum_only(a + b) =~= alnum_only(a) + alnum_only(b));
        }
    }
}

proof fn lemma_alnum_of_alnum(c: Seq<char>)
    requires
        forall|i: int| 0 <= i < c.len() ==> is_ascii_alnum(#[trigger] c[i]),
    ensures
        alnum_only(c) == c,
    decreases c.len(),
{
    if c.len() > 0 {
        assert forall|i: int| 0 <= i < c.drop_last().len() implies is_ascii_alnum(#[trigger] c.drop_last()[i]) by {
            assert(c.drop_last()[i] == c[i]);
        }
        lemma_alnum_of_alnum(c.drop_last());
        assert(is_ascii_alnum(c[c.len() - 1]));
        assert(c.drop_last().push(c.last()) =~= c);
    }
}

proof fn lemma_alnum_only_is_alnum(s: Seq<char>)
    ensures
        forall|i: int| 0 <= i < alnum_only(s).len() ==> is_ascii_alnum(#[trigger] alnum_only(s)[i]),
    decreases s.len(),
{
    if s.len() > 0 {
        lemma_alnum_only_is_alnum(s.drop_last());
        let r = alnum_only(s.drop_last());
        if is_ascii_alnum(s.last()) {
            assert forall|i: int| 0 <= i < r.push(s.last()).len() implies is_ascii_alnum(
                #[trigger] r.push(s.last())[i],
            ) by {
                if i < r.len() {
                    assert(r.push(s.last())[i] == r[i]);
                }
            }
        }
    }
}

proof fn lemma_groups_keep_characters(c: Seq<char>, k: nat)
    requires
        c.len() == 40,
        k <= 10,
        forall|i: int| 0 <= i < c.len() ==> is_ascii_alnum(#[trigger] c[i]),
    ensures
        alnum_only(fingerprint_groups(c, k)) == c.take((4 * k) as int),
    decreases k,
{
    if k == 0 {
        assert(c.take(0) =~= Seq::<char>::empty());
    } else {
        reveal_strlit(" ");
        reveal_strlit("  ");
        let sep: Seq<char> = if k == 1 { seq![] } else if k == 6 { "  "@ } else { " "@ };
        let piece = c.subrange(4 * (k - 1), (4 * k) as int);
        lemma_groups_keep_characters(c, (k - 1) as nat);
        lemma_alnum_concat(fingerprint_groups(c, (k - 1) as nat), sep);
        lemma_alnum_concat(fingerprint_groups(c, (k - 1) as nat) + sep, piece);
        assert(alnum_only(sep) =~= Seq::<char>::empty()) by {
            if k == 6 {
                assert(sep =~= seq![' ', ' ']);
                assert(sep.drop_last() =~= seq![' ']);
                assert(sep.drop_last().drop_last() =~= Seq::<char>::empty());
                assert(!is_ascii_alnum(' '));
                assert(alnum_only(sep.drop_last().drop_last()) =~= Seq::<char>::empty());
                assert(alnum_only(sep.drop_last()) =~= Seq::<char>::empty());
            } else if k != 1 {
                assert(sep =~= seq![' ']);
                assert(sep.drop_last() =~= Seq::<char>::empty());
                assert(alnum_only(sep.drop_last()) =~= Seq::<char>::empty());
            }
        }
        assert forall|i: int| 0 <= i < piece.len() implies is_ascii_alnum(#[trigger] piece[i]) by {
            assert(piece[i] == c[4 * (k - 1) + i]);
        }
        lemma_alnum_of_alnum(piece);
        assert(c.take(4 * (k - 1)) + piece =~= c.take((4 * k) as int));
    }
}

/// Writing a fingerprint in groups loses none of its letters and digits, and a
/// fingerprint written in groups is written the same way again.
pub proof fn law_fingerprint_format_keeps_characters(fpr: Seq<char>)
    ensures
        alnum_only(spec_format_fingerprint(fpr)) == alnum_only(fpr),
        spec_format_fingerprint(spec_format_fingerprint(fpr)) == spec_format_fingerprint(fpr),
{
    let clean = alnum_only(fpr);
    if clean.len() == 40 {
        lemma_alnum_only_is_alnum(fpr);
        lemma_groups_keep_characters(clean, 10);
        assert(clean.take(40) =~= clean);
    }
}


// ----------------------------------------------------------------------------
// Keyring names in string order
// ----------------------------------------------------------------------------

proof fn lemma_name_le_total(a: Seq<char>, b: Seq<char>)
    ensures
        name_le(a, b) || name_le(b, a),
    decreases a.len(),
{
    if a.len() > 0 && b.len() > 0 && a[0] == b[0] {
        lemma_name_le_total(a.drop_first(), b.drop_first());
    }
}

proof fn lemma_name_le_trans(a: Seq<char>, b: Seq<char>, c: Seq<char>)
    requires
        name_le(a, b),
        name_le(b, c),
    ensures
        name_le(a, c),
    decreases a.len(),
{
    if a.len() > 0 && b.len() > 0 && c.len() > 0 && a[0] == b[0] && b[0] == c[0] {
        lemma_name_le_trans(a.drop_first(), b.drop_first(), c.drop_first());
    }
}

proof fn lemma_insert_pos(t: Seq<Seq<char>>, x: Seq<char>)
    ensures
        0 <= insert_pos(t, x) <= t.len(),
        forall|j: int| 0 <= j < insert_pos(t, x) ==> !name_le(x, #[trigger] t[j]),
        insert_pos(t, x) < t.len() ==> name_le(x, t[insert_pos(t, x)]),
    decreases t.len(),
{
    if t.len() > 0 && !name_le(x, t[0]) {
        lemma_insert_pos(t.drop_first(), x);
        assert forall|j: int| 0 <= j < insert_pos(t, x) implies !name_le(x, #[trigger] t[j]) by {
            if j > 0 {
                assert(t[j] == t.drop_first()[j - 1]);
            }
        }
    }
}

/// Keyring names found in a directory are put in string order, and none is
/// lost or added: the result is ordered by [`name_le`] and holds each name as
/// often as the listing did.
pub proof fn law_sorted_names(s: Seq<Seq<char>>)
    ensures
        forall|i: int, j: int|
            0 <= i < j < sorted_names(s).len() ==> name_le(
                #[trigger] sorted_names(s)[i],
                #[trigger] sorted_names(s)[j],
            ),
        sorted_names(s).to_multiset() == s.to_multiset(),
    decreases s.len(),
{
    broadcast use vstd::seq_lib::group_to_multiset_ensures;

    if s.len() == 0 {
    } else {
        let t = sorted_names(s.drop_last());
        let x = s.last();
        law_sorted_names(s.drop_last());
        lemma_insert_pos(t, x);
        let p = insert_pos(t, x);
        let r = sorted_names(s);
        assert(r == t.take(p) + seq![x] + t.skip(p));
        assert(r =~= t.insert(p, x));
        assert(s =~= s.drop_last().push(x));
        assert forall|i: int, j: int| 0 <= i < j < r.len() implies name_le(#[trigger] r[i], #[trigger] r[j]) by {
            if j < p {
                assert(r[i] == t[i] && r[j] == t[j]);
            } else if j == p {
                assert(r[i] == t[i] && r[j] == x);
                lemma_name_le_total(x, t[i]);
            } else if i < p {
                assert(r[i] == t[i] && r[j] == t[j - 1]);
            } else if i == p {
                assert(r[i] == x && r[j] == t[j - 1]);
                if j - 1 > p {
                    assert(name_le(t[p], t[j - 1]));
                    lemma_name_le_trans(x, t[p], t[j - 1]);
                }
            } else {
                assert(r[i] == t[i - 1] && r[j] == t[j - 1]);
            }
        }
    }
}


// ----------------------------------------------------------------------------
// Scavenging rounds
// ----------------------------------------------------------------------------

/// No item occurs twice.
pub open spec fn no_dups(s: Seq<Seq<char>>) -> bool {
    forall|i: int, j: int| 0 <= i < j < s.len() ==> s[i] != s[j]
}

/// What the scavenger's bookkeeping keeps between rounds: the primary package
/// is fetched (first), nothing is fetched twice, the pool holds each candidate
/// once, and each scavenged package was fetched, is scavenged once and is not
/// the primary package.
pub open spec fn scavenge_wf(v: ScavengeV) -> bool {
    &&& v.fetched.len() >= 1
    &&& no_dups(v.fetched)
    &&& no_dups(v.pool)
    &&& no_dups(v.scavenged)
    &&& forall|k: int|
        0 <= k < v.scavenged.len() ==> v.fetched.contains(#[trigger] v.scavenged[k]) && v.scavenged[k]
            != v.fetched[0]
}

proof fn lemma_merge_deps_no_dups(pool: Seq<Seq<char>>, deps: Seq<Seq<char>>)
    requires
        no_dups(pool),
    ensures
        no_dups(merge_deps(pool, deps)),
        forall|x: Seq<char>| pool.contains(x) ==> merge_deps(pool, deps).contains(x),
    decreases deps.len(),
{
    if deps.len() > 0 {
        lemma_merge_deps_no_dups(pool, deps.drop_last());
        let p = merge_deps(pool, deps.drop_last());
        if !p.contains(deps.last()) {
            let q = p.push(deps.last());
            assert forall|i: int, j: int| 0 <= i < j < q.len() implies q[i] != q[j] by {
                if j == p.len() {
                    assert(p[i] == q[i]);
                }
            }
            assert forall|x: Seq<char>| pool.contains(x) implies q.contains(x) by {
                let k = choose|k: int| 0 <= k < p.len() && p[k] == x;
                assert(q[k] == x);
            }
        }
    }
}

/// One fetch of a package not fetched yet keeps the bookkeeping well formed.
proof fn lemma_fetch_step_wf(v: ScavengeV, pkg: Seq<char>, deps: Option<Seq<Seq<char>>>)
    requires
        scavenge_wf(v),
        !v.fetched.contains(pkg),
    ensures
        scavenge_wf(fetch_step(v, pkg, deps)),
        fetch_step(v, pkg, deps).fetched == v.fetched.push(pkg),
{
    let w = fetch_step(v, pkg, deps);
    let f = v.fetched.push(pkg);
    assert(w.fetched == f);
    assert forall|i: int, j: int| 0 <= i < j < f.len() implies f[i] != f[j] by {
        if j == v.fetched.len() {
            assert(v.fetched.contains(f[i]));
        }
    }
    assert forall|x: Seq<char>| v.fetched.contains(x) implies f.contains(x) by {
        let k = choose|k: int| 0 <= k < v.fetched.len() && v.fetched[k] == x;
        assert(f[k] == x);
    }
    assert(f[0] == v.fetched[0]);
    assert(f[v.fetched.len() as int] == pkg);
    match deps {
        Some(d) => {
            lemma_merge_deps_no_dups(v.pool, d);
            let s = v.scavenged.push(pkg);
            assert forall|i: int, j: int| 0 <= i < j < s.len() implies s[i] != s[j] by {
                if j == v.scavenged.len() {
                    assert(v.fetched.contains(v.scavenged[i]));
                }
            }
            assert forall|k: int| 0 <= k < s.len() implies f.contains(#[trigger] s[k]) && s[k] != f[0] by {
                if k < v.scavenged.len() {
                    assert(s[k] == v.scavenged[k]);
                } else {
                    assert(s[k] == pkg);
                    assert(pkg != v.fetched[0]);
                }
            }
        },
        None => {
            assert forall|k: int| 0 <= k < v.scavenged.len() implies f.contains(
                #[trigger] v.scavenged[k],
            ) && v.scavenged[k] != f[0] by {
                assert(v.fetched.contains(v.scavenged[k]));
            }
        },
    }
}

/// Fetching, in order, packages that are distinct and not fetched yet keeps the
/// bookkeeping well formed.
proof fn lemma_apply_round_wf(v: ScavengeV, plan: Seq<Seq<char>>, outcomes: Seq<Option<Seq<Seq<char>>>>)
    requires
        scavenge_wf(v),
        no_dups(plan),
        forall|k: int| 0 <= k < plan.len() ==> !v.fetched.contains(#[trigger] plan[k]),
    ensures
        scavenge_wf(apply_fetches(v, plan, outcomes)),
    decreases plan.len(),
{
    if plan.len() > 0 && outcomes.len() > 0 {
        lemma_fetch_step_wf(v, plan[0], outcomes[0]);
        let w = fetch_step(v, plan[0], outcomes[0]);
        let rest = plan.drop_first();
        assert forall|k: int| 0 <= k < rest.len() implies !w.fetched.contains(#[trigger] rest[k]) by {
            assert(rest[k] == plan[k + 1]);
            assert(plan[0] != plan[k + 1]);
            if w.fetched.contains(rest[k]) {
                let j = choose|j: int| 0 <= j < w.fetched.len() && w.fetched[j] == rest[k];
                if j < v.fetched.len() {
                    assert(v.fetched[j] == rest[k]);
                    assert(v.fetched.contains(plan[k + 1]));
                }
            }
        }
        assert forall|i: int, j: int| 0 <= i < j < rest.len() implies rest[i] != rest[j] by {
            assert(rest[i] == plan[i + 1] && rest[j] == plan[j + 1]);
        }
        lemma_apply_round_wf(w, rest, outcomes.drop_first());
    }
}

/// The donors of a round are distinct and none was fetched.
proof fn lemma_donor_queue_fresh(fetched: Seq<Seq<char>>, pool: Seq<Seq<char>>, needs: Seq<(Seq<char>, bool, Option<Seq<char>>)>)
    ensures
        no_dups(donor_queue(fetched, pool, needs)),
        forall|k: int|
            0 <= k < donor_queue(fetched, pool, needs).len() ==> !fetched.contains(
                #[trigger] donor_queue(fetched, pool, needs)[k],
            ),
    decreases needs.len(),
{
    if needs.len() > 0 {
        lemma_donor_queue_fresh(fetched, pool, needs.drop_last());
        let q = donor_queue(fetched, pool, needs.drop_last());
        let n = needs.last();
        if !n.1 {
            match donor_for(fetched, pool, n) {
                Some(p) => {
                    if !(fetched.contains(p) || q.contains(p)) {
                        let r = q.push(p);
                        assert forall|i: int, j: int| 0 <= i < j < r.len() implies r[i] != r[j] by {
                            if j == q.len() {
                                assert(q.contains(r[i]));
                            }
                        }
                        assert forall|k: int| 0 <= k < r.len() implies !fetched.contains(#[trigger] r[k]) by {
                            if k < q.len() {
                                assert(r[k] == q[k]);
                            }
                        }
                    }
                },
                None => {},
            }
        }
    }
}

/// The fallback candidates of a pool without repeats have no repeats.
proof fn lemma_fallback_no_dups(pool: Seq<Seq<char>>, fetched: Seq<Seq<char>>, n: nat)
    requires
        no_dups(pool),
    ensures
        no_dups(fallback_from(pool, fetched, n)),
        forall|k: int|
            0 <= k < fallback_from(pool, fetched, n).len() ==> pool.contains(
                #[trigger] fallback_from(pool, fetched, n)[k],
            ) && fallback_ok(fetched, fallback_from(pool, fetched, n)[k]),
    decreases pool.len(),
{
    if pool.len() > 0 && n > 0 {
        let rest = pool.drop_first();
        assert forall|i: int, j: int| 0 <= i < j < rest.len() implies rest[i] != rest[j] by {
            assert(rest[i] == pool[i + 1] && rest[j] == pool[j + 1]);
        }
        let m: nat = if fallback_ok(fetched, pool[0]) { (n - 1) as nat } else { n };
        lemma_fallback_no_dups(rest, fetched, m);
        let t = fallback_from(rest, fetched, m);
        assert forall|k: int| 0 <= k < t.len() implies pool.contains(#[trigger] t[k]) && t[k] != pool[0] by {
            let j = choose|j: int| 0 <= j < rest.len() && rest[j] == t[k];
            assert(pool[j + 1] == t[k]);
        }
        if fallback_ok(fetched, pool[0]) {
            let r = seq![pool[0]] + t;
            assert(fallback_from(pool, fetched, n) == r);
            assert forall|i: int, j: int| 0 <= i < j < r.len() implies r[i] != r[j] by {
                if i == 0 {
                    assert(r[j] == t[j - 1]);
                } else {
                    assert(r[i] == t[i - 1] && r[j] == t[j - 1]);
                }
            }
            assert forall|k: int| 0 <= k < r.len() implies pool.contains(#[trigger] r[k]) && fallback_ok(
                fetched,
                r[k],
            ) by {
                if k == 0 {
                    assert(pool[0] == r[0]);
                } else {
                    assert(r[k] == t[k - 1]);
                }
            }
        }
    }
}

/// A round fetches packages that are distinct and not fetched yet.
pub proof fn law_plan_round_fresh(v: ScavengeV, needs: Seq<(Seq<char>, bool, Option<Seq<char>>)>)
    requires
        no_dups(v.pool),
    ensures
        no_dups(spec_plan_round(v, needs)),
        forall|k: int|
            0 <= k < spec_plan_round(v, needs).len() ==> !v.fetched.contains(
                #[trigger] spec_plan_round(v, needs)[k],
            ),
{
    lemma_donor_queue_fresh(v.fetched, v.pool, needs);
    lemma_fallback_no_dups(v.pool, v.fetched, 6);
}

/// Scavenging starts well formed when the primary package's declared
/// dependencies name each package once.
pub proof fn law_scavenge_start(primary: Seq<char>, deps: Seq<Seq<char>>)
    requires
        no_dups(deps),
    ensures
        scavenge_wf(ScavengeV { fetched: seq![primary], pool: deps, scavenged: seq![] }),
{
}

/// Every scavenging round keeps the bookkeeping well formed, whatever the
/// missing libraries, the online answers and the fetches' outcomes: so the
/// packages scavenged are never the primary package and never repeat.
pub proof fn law_scavenge_round_keeps(
    v: ScavengeV,
    needs: Seq<(Seq<char>, bool, Option<Seq<char>>)>,
    outcomes: Seq<Option<Seq<Seq<char>>>>,
)
    requires
        scavenge_wf(v),
    ensures
        scavenge_wf(apply_fetches(v, spec_plan_round(v, needs), outcomes)),
{
    law_plan_round_fresh(v, needs);
    lemma_apply_round_wf(v, spec_plan_round(v, needs), outcomes);
}

/// The packages of a round whose fetch succeeded (its outcome is `Some`), in order.
pub open spec fn round_successes(plan: Seq<Seq<char>>, outcomes: Seq<Option<Seq<Seq<char>>>>) -> Seq<Seq<char>>
    decreases plan.len(),
{
    if plan.len() == 0 || outcomes.len() == 0 {
        seq![]
    } else {
        (if outcomes[0] is Some { seq![plan[0]] } else { seq![] }) + round_successes(
            plan.drop_first(),
            outcomes.drop_first(),
        )
    }
}

/// Scavenging from the bookkeeping `v` at round `it`, each round given the
/// missing libraries (with their reuse and online answers) and the outcomes of
/// its fetches, as the scavenging loop runs it: a round starts only while the
/// round limit allows; it ends scavenging when nothing is missing, no package
/// to fetch is found, or nothing was unpacked. The result: the bookkeeping at
/// the end, the number of rounds that fetched, and the packages unpacked, in
/// order. Scavenging also stops when the given rounds run out.
pub open spec fn run_rounds(
    v: ScavengeV,
    it: nat,
    rounds: Seq<(Seq<(Seq<char>, bool, Option<Seq<char>>)>, Seq<Option<Seq<Seq<char>>>>)>,
) -> (ScavengeV, nat, Seq<Seq<char>>)
    decreases rounds.len(),
{
    if rounds.len() == 0 || it + 1 > MAX_SCAVENGE_ROUNDS {
        (v, 0, seq![])
    } else {
        match round_plan(v, rounds[0].0) {
            None => (v, 0, seq![]),
            Some(p) => {
                let w = apply_fetches(v, p, rounds[0].1);
                let s = round_successes(p, rounds[0].1);
                if w.scavenged.len() == v.scavenged.len() {
                    (w, 1, s)
                } else {
                    let r = run_rounds(w, it + 1, rounds.drop_first());
                    (r.0, r.1 + 1, s + r.2)
                }
            },
        }
    }
}

proof fn lemma_apply_fetches_successes(v: ScavengeV, plan: Seq<Seq<char>>, outcomes: Seq<Option<Seq<Seq<char>>>>)
    requires
        v.fetched.len() >= 1,
    ensures
        apply_fetches(v, plan, outcomes).scavenged == v.scavenged + round_successes(plan, outcomes),
        apply_fetches(v, plan, outcomes).fetched.len() >= 1,
        apply_fetches(v, plan, outcomes).fetched[0] == v.fetched[0],
    decreases plan.len(),
{
    if plan.len() > 0 && outcomes.len() > 0 {
        let w = fetch_step(v, plan[0], outcomes[0]);
        assert(w.fetched[0] == v.fetched[0]);
        lemma_apply_fetches_successes(w, plan.drop_first(), outcomes.drop_first());
        if outcomes[0] is Some {
            assert(w.scavenged == v.scavenged.push(plan[0]));
            assert(v.scavenged + round_successes(plan, outcomes) =~= v.scavenged.push(plan[0])
                + round_successes(plan.drop_first(), outcomes.drop_first()));
        } else {
            assert(w.scavenged == v.scavenged);
            assert(round_successes(plan, outcomes) =~= round_successes(plan.drop_first(), outcomes.drop_first()));
        }
    } else {
        assert(v.scavenged + round_successes(plan, outcomes) =~= v.scavenged);
    }
}

/// Scavenging rounds, whatever their missing libraries, online answers and
/// fetch outcomes, keep the bookkeeping well formed and the primary package
/// first among the fetched; the packages scavenged grow by exactly those whose
/// fetch and unpacking succeeded; and no more rounds run than the limit leaves.
pub proof fn law_scavenge_runs_keep(
    v: ScavengeV,
    it: nat,
    rounds: Seq<(Seq<(Seq<char>, bool, Option<Seq<char>>)>, Seq<Option<Seq<Seq<char>>>>)>,
)
    requires
        scavenge_wf(v),
        it <= MAX_SCAVENGE_ROUNDS,
    ensures
        scavenge_wf(run_rounds(v, it, rounds).0),
        run_rounds(v, it, rounds).0.fetched[0] == v.fetched[0],
        run_rounds(v, it, rounds).0.scavenged == v.scavenged + run_rounds(v, it, rounds).2,
        run_rounds(v, it, rounds).1 <= MAX_SCAVENGE_ROUNDS - it,
    decreases rounds.len(),
{
    if rounds.len() == 0 || it + 1 > MAX_SCAVENGE_ROUNDS {
        assert(v.scavenged + Seq::<Seq<char>>::empty() =~= v.scavenged);
    } else {
        match round_plan(v, rounds[0].0) {
            None => {
                assert(v.scavenged + Seq::<Seq<char>>::empty() =~= v.scavenged);
            },
            Some(p) => {
                law_scavenge_round_keeps(v, rounds[0].0, rounds[0].1);
                lemma_apply_fetches_successes(v, p, rounds[0].1);
                let w = apply_fetches(v, p, rounds[0].1);
                if w.scavenged.len() != v.scavenged.len() {
                    law_scavenge_runs_keep(w, it + 1, rounds.drop_first());
                    let r = run_rounds(w, it + 1, rounds.drop_first());
                    let s = round_successes(p, rounds[0].1);
                    assert(r.0.scavenged == v.scavenged + s + r.2);
                    assert(v.scavenged + s + r.2 =~= v.scavenged + (s + r.2));
                }
            },
        }
    }
}

/// Scavenging for a primary package whose declared dependencies name each
/// package once scavenges no package twice, never the primary package, only
/// packages whose fetch and unpacking succeeded, in at most the round limit.
pub proof fn law_scavenge_dependencies(
    primary: Seq<char>,
    deps: Seq<Seq<char>>,
    rounds: Seq<(Seq<(Seq<char>, bool, Option<Seq<char>>)>, Seq<Option<Seq<Seq<char>>>>)>,
)
    requires
        no_dups(deps),
    ensures
        no_dups(run_rounds(ScavengeV { fetched: seq![primary], pool: deps, scavenged: seq![] }, 0, rounds).0.scavenged),
        !run_rounds(ScavengeV { fetched: seq![primary], pool: deps, scavenged: seq![] }, 0, rounds).0.scavenged.contains(
            primary,
        ),
        run_rounds(ScavengeV { fetched: seq![primary], pool: deps, scavenged: seq![] }, 0, rounds).0.scavenged
            == run_rounds(ScavengeV { fetched: seq![primary], pool: deps, scavenged: seq![] }, 0, rounds).2,
        run_rounds(ScavengeV { fetched: seq![primary], pool: deps, scavenged: seq![] }, 0, rounds).1
            <= MAX_SCAVENGE_ROUNDS,
{
    let v = ScavengeV { fetched: seq![primary], pool: deps, scavenged: seq![] };
    law_scavenge_start(primary, deps);
    law_scavenge_runs_keep(v, 0, rounds);
    let r = run_rounds(v, 0, rounds);
    assert(Seq::<Seq<char>>::empty() + r.2 =~= r.2);
    if r.0.scavenged.contains(primary) {
        let k = choose|k: int| 0 <= k < r.0.scavenged.len() && r.0.scavenged[k] == primary;
        assert(r.0.scavenged[k] != r.0.fetched[0]);
    }
}


// ----------------------------------------------------------------------------
// The progress bar
// ----------------------------------------------------------------------------

/// How many times `c` occurs in `s`.
pub open spec fn count_char(s: Seq<char>, c: char) -> nat
    decreases s.len(),
{
    if s.len() == 0 {
        0
    } else {
        count_char(s.drop_last(), c) + if s.last() == c { 1nat } else { 0nat }
    }
}

proof fn lemma_count_concat(a: Seq<char>, b: Seq<char>, c: char)
    ensures
        count_char(a + b, c) == count_char(a, c) + count_char(b, c),
    decreases b.len(),
{
    if b.len() == 0 {
        assert(a + b =~= a);
    } else {
        assert((a + b).drop_last() =~= a + b.drop_last());
        lemma_count_concat(a, b.drop_last(), c);
    }
}

proof fn lemma_count_repeat(s: Seq<char>, n: nat, c: char)
    requires
        count_char(s, c) <= 1,
    ensures
        count_char(repeat(s, n), c) == if count_char(s, c) == 1 { n } else { 0 },
    decreases n,
{
    if n > 0 {
        lemma_count_repeat(s, (n - 1) as nat, c);
        lemma_count_concat(repeat(s, (n - 1) as nat), s, c);
    }
}

proof fn lemma_count_absent(s: Seq<char>, c: char)
    requires
        forall|i: int| 0 <= i < s.len() ==> s[i] != c,
    ensures
        count_char(s, c) == 0,
    decreases s.len(),
{
    if s.len() > 0 {
        lemma_count_absent(s.drop_last(), c);
    }
}

/// A text with `c` once, at `k`.
proof fn lemma_count_once(s: Seq<char>, c: char, k: int)
    requires
        0 <= k < s.len(),
        s[k] == c,
        forall|i: int| 0 <= i < s.len() && i != k ==> s[i] != c,
    ensures
        count_char(s, c) == 1,
{
    let p = s.take(k);
    let q = s.skip(k + 1);
    assert(s =~= p + seq![c] + q);
    lemma_count_absent(p, c);
    lemma_count_absent(q, c);
    assert(count_char(seq![c], c) == 1) by {
        assert(seq![c].drop_last() =~= Seq::<char>::empty());
        assert(count_char(Seq::<char>::empty(), c) == 0);
        assert(seq![c].last() == c);
    }
    lemma_count_concat(p, seq![c], c);
    lemma_count_concat(p + seq![c], q, c);
}

/// The counts of the bar's special characters in each of its pieces.
proof fn lemma_candy_pieces()
    ensures
        count_char("\x1b[38;5;240m[\x1b[1;38;5;48m"@, '👑') == 0,
        count_char("\x1b[38;5;240m[\x1b[1;38;5;48m"@, '━') == 0,
        count_char("\x1b[38;5;240m[\x1b[1;38;5;48m"@, '•') == 0,
        count_char("\x1b[38;5;240m[\x1b[1;38;5;48m"@, '·') == 0,
        count_char("━"@, '👑') == 0,
        count_char("━"@, '━') == 1,
        count_char("━"@, '•') == 0,
        count_char("━"@, '·') == 0,
        count_char("\x1b[0m 👑\x1b[38;5;240m]\x1b[0m"@, '👑') == 1,
        count_char("\x1b[0m 👑\x1b[38;5;240m]\x1b[0m"@, '━') == 0,
        count_char("\x1b[0m 👑\x1b[38;5;240m]\x1b[0m"@, '•') == 0,
        count_char("\x1b[0m 👑\x1b[38;5;240m]\x1b[0m"@, '·') == 0,
        count_char("\x1b[0m👑"@, '👑') == 1,
        count_char("\x1b[0m👑"@, '━') == 0,
        count_char("\x1b[0m👑"@, '•') == 0,
        count_char("\x1b[0m👑"@, '·') == 0,
        count_char("\x1b[38;5;51m•\x1b[0m"@, '👑') == 0,
        count_char("\x1b[38;5;51m•\x1b[0m"@, '━') == 0,
        count_char("\x1b[38;5;51m•\x1b[0m"@, '•') == 1,
        count_char("\x1b[38;5;51m•\x1b[0m"@, '·') == 0,
        count_char("\x1b[38;5;242m·\x1b[0m"@, '👑') == 0,
        count_char("\x1b[38;5;242m·\x1b[0m"@, '━') == 0,
        count_char("\x1b[38;5;242m·\x1b[0m"@, '•') == 0,
        count_char("\x1b[38;5;242m·\x1b[0m"@, '·') == 1,
        count_char("\x1b[38;5;240m]\x1b[0m"@, '👑') == 0,
        count_char("\x1b[38;5;240m]\x1b[0m"@, '━') == 0,
        count_char("\x1b[38;5;240m]\x1b[0m"@, '•') == 0,
        count_char("\x1b[38;5;240m]\x1b[0m"@, '·') == 0,
{
    let a = "\x1b[38;5;240m[\x1b[1;38;5;48m"@;
    let bar = "━"@;
    let c = "\x1b[0m 👑\x1b[38;5;240m]\x1b[0m"@;
    let d = "\x1b[0m👑"@;
    let e = "\x1b[38;5;51m•\x1b[0m"@;
    let f = "\x1b[38;5;242m·\x1b[0m"@;
    let g = "\x1b[38;5;240m]\x1b[0m"@;
    reveal_strlit("\x1b[38;5;240m[\x1b[1;38;5;48m");
    reveal_strlit("━");
    reveal_strlit("\x1b[0m 👑\x1b[38;5;240m]\x1b[0m");
    reveal_strlit("\x1b[0m👑");
    reveal_strlit("\x1b[38;5;51m•\x1b[0m");
    reveal_strlit("\x1b[38;5;242m·\x1b[0m");
    reveal_strlit("\x1b[38;5;240m]\x1b[0m");
    lemma_count_absent(a, '👑');
    lemma_count_absent(a, '━');
    lemma_count_absent(a, '•');
    lemma_count_absent(a, '·');
    lemma_count_absent(bar, '👑');
    lemma_count_once(bar, '━', 0);
    lemma_count_absent(bar, '•');
    lemma_count_absent(bar, '·');
    lemma_count_once(c, '👑', 5);
    lemma_count_absent(c, '━');
    lemma_count_absent(c, '•');
    lemma_count_absent(c, '·');
    lemma_count_once(d, '👑', 4);
    lemma_count_absent(d, '━');
    lemma_count_absent(d, '•');
    lemma_count_absent(d, '·');
    lemma_count_absent(e, '👑');
    lemma_count_absent(e, '━');
    lemma_count_once(e, '•', 10);
    lemma_count_absent(e, '·');
    lemma_count_absent(f, '👑');
    lemma_count_absent(f, '━');
    lemma_count_absent(f, '•');
    lemma_count_once(f, '·', 11);
    lemma_count_absent(g, '👑');
    lemma_count_absent(g, '━');
    lemma_count_absent(g, '•');
    lemma_count_absent(g, '·');
}

/// Four ticks later, every cell of the track shows the same dot, whatever the
/// width of `usize` the tick is cut to.
proof fn lemma_half_tick_parity(tick: u64, i: int)
    requires
        tick <= u64::MAX - 4,
        i >= 0,
    ensures
        (i + (((tick + 4) as u64) as usize) / 2) % 2 == (i + (tick as usize) / 2) % 2,
{
    let t4: u64 = (tick + 4) as u64;
    assert((((t4 as usize) / 2) % 2) == (((tick as usize) / 2) % 2)) by (bit_vector)
        requires
            tick <= 0xffff_ffff_ffff_fffb,
            t4 == tick + 4,
    ;
}

/// The candy track of `n` cells holds `n` dots and no crown or bar segment, and
/// looks the same two frames (four ticks) later.
proof fn lemma_candy_track(n: nat, tick: u64)
    requires
        tick <= u64::MAX - 4,
    ensures
        count_char(candy_track(n, tick), '•') + count_char(candy_track(n, tick), '·') == n,
        count_char(candy_track(n, tick), '👑') == 0,
        count_char(candy_track(n, tick), '━') == 0,
        candy_track(n, (tick + 4) as u64) == candy_track(n, tick),
    decreases n,
{
    if n > 0 {
        lemma_candy_track((n - 1) as nat, tick);
        lemma_candy_pieces();
        let i = n - 1;
        let dot: Seq<char> = if (i + (tick as usize) / 2) % 2 == 0 {
            "\x1b[38;5;51m•\x1b[0m"@
        } else {
            "\x1b[38;5;242m·\x1b[0m"@
        };
        let t0 = candy_track((n - 1) as nat, tick);
        assert(candy_track(n, tick) == t0 + dot);
        lemma_count_concat(t0, dot, '•');
        lemma_count_concat(t0, dot, '·');
        lemma_count_concat(t0, dot, '👑');
        lemma_count_concat(t0, dot, '━');
        lemma_half_tick_parity(tick, i);
    }
}

/// The progress bar clamps the percentage to 0..=100, shows exactly one crown,
/// `width` bar segments when done and `percent * width / 100` before, one dot
/// for each cell after the crown (none when done), and repeats every four
/// ticks.
pub proof fn law_candy_bar(percent: i32, width: usize, tick: u64)
    requires
        width <= usize::MAX / 100,
        tick <= u64::MAX - 4,
    ensures
        spec_candy_bar(percent, width, tick) == spec_candy_bar(clamp_percent(percent) as i32, width, tick),
        count_char(spec_candy_bar(percent, width, tick), '👑') == 1,
        count_char(spec_candy_bar(percent, width, tick), '━') == if clamp_percent(percent) >= 100 {
            width as int
        } else {
            clamp_percent(percent) * width / 100
        },
        count_char(spec_candy_bar(percent, width, tick), '•') + count_char(
            spec_candy_bar(percent, width, tick),
            '·',
        ) == if clamp_percent(percent) >= 100 {
            0
        } else if width >= clamp_percent(percent) * width / 100 + 1 {
            width - clamp_percent(percent) * width / 100 - 1
        } else {
            0
        },
        spec_candy_bar(percent, width, (tick + 4) as u64) == spec_candy_bar(percent, width, tick),
{
    lemma_candy_pieces();
    let pct = clamp_percent(percent);
    let filled = (pct * width) / 100;
    let a = "\x1b[38;5;240m[\x1b[1;38;5;48m"@;
    let bar = "━"@;
    assert(clamp_percent(pct as i32) == pct);
    if pct >= 100 {
        let r = repeat(bar, width as nat);
        let c = "\x1b[0m 👑\x1b[38;5;240m]\x1b[0m"@;
        lemma_count_repeat(bar, width as nat, '👑');
        lemma_count_repeat(bar, width as nat, '━');
        lemma_count_repeat(bar, width as nat, '•');
        lemma_count_repeat(bar, width as nat, '·');
        lemma_count_concat(a, r, '👑');
        lemma_count_concat(a, r, '━');
        lemma_count_concat(a, r, '•');
        lemma_count_concat(a, r, '·');
        lemma_count_concat(a + r, c, '👑');
        lemma_count_concat(a + r, c, '━');
        lemma_count_concat(a + r, c, '•');
        lemma_count_concat(a + r, c, '·');
    } else {
        assert(0 <= filled) by (nonlinear_arith)
            requires
                0 <= pct,
                filled == (pct * width) / 100,
        ;
        let remaining: nat = if width >= filled + 1 { (width - filled - 1) as nat } else { 0 };
        let r = repeat(bar, filled as nat);
        let d = "\x1b[0m👑"@;
        let tr = candy_track(remaining, tick);
        let g = "\x1b[38;5;240m]\x1b[0m"@;
        lemma_candy_track(remaining, tick);
        lemma_count_repeat(bar, filled as nat, '👑');
        lemma_count_repeat(bar, filled as nat, '━');
        lemma_count_repeat(bar, filled as nat, '•');
        lemma_count_repeat(bar, filled as nat, '·');
        lemma_count_concat(a, r, '👑');
        lemma_count_concat(a, r, '━');
        lemma_count_concat(a, r, '•');
        lemma_count_concat(a, r, '·');
        lemma_count_concat(a + r, d, '👑');
        lemma_count_concat(a + r, d, '━');
        lemma_count_concat(a + r, d, '•');
        lemma_count_concat(a + r, d, '·');
        lemma_count_concat(a + r + d, tr, '👑');
        lemma_count_concat(a + r + d, tr, '━');
        lemma_count_concat(a + r + d, tr, '•');
        lemma_count_concat(a + r + d, tr, '·');
        lemma_count_concat(a + r + d + tr, g, '👑');
        lemma_count_concat(a + r + d + tr, g, '━');
        lemma_count_concat(a + r + d + tr, g, '•');
        lemma_count_concat(a + r + d + tr, g, '·');
    }
}


// ----------------------------------------------------------------------------
// Reading pacman.conf
// ----------------------------------------------------------------------------

/// Every repository has at least one server.
pub open spec fn all_served(rs: Seq<RepoV>) -> bool {
    forall|i: int| 0 <= i < rs.len() ==> (#[trigger] rs[i]).servers.len() > 0
}

proof fn lemma_close_repo_served(cfg: ConfigV, repo: Option<RepoV>)
    requires
        all_served(cfg.repositories),
    ensures
        all_served(close_repo(cfg, repo).repositories),
{
    match repo {
        Some(r) => {
            if r.servers.len() > 0 {
                let rs = cfg.repositories.push(r);
                assert forall|i: int| 0 <= i < rs.len() implies (#[trigger] rs[i]).servers.len() > 0 by {
                    if i < cfg.repositories.len() {
                        assert(rs[i] == cfg.repositories[i]);
                    }
                }
            }
        },
        None => {},
    }
}

proof fn lemma_parse_conf_served(
    content: Seq<char>,
    host: Seq<char>,
    files: Seq<(Seq<char>, Seq<char>)>,
    open_paths: Seq<Seq<char>>,
)
    ensures
        all_served(parse_conf(content, host, files, open_paths).repositories),
    decreases open_paths.len(), 2nat, 0nat,
{
    let init = ParseV { cfg: spec_default_config(host), section: Section::Top, repo: None };
    assert(all_served(init.cfg.repositories));
    lemma_fold_conf_served(lines(content), init, host, files, open_paths);
    let st = fold_conf(lines(content), init, host, files, open_paths);
    lemma_close_repo_served(st.cfg, st.repo);
}

proof fn lemma_fold_conf_served(
    ls: Seq<Seq<char>>,
    st: ParseV,
    host: Seq<char>,
    files: Seq<(Seq<char>, Seq<char>)>,
    open_paths: Seq<Seq<char>>,
)
    requires
        all_served(st.cfg.repositories),
    ensures
        all_served(fold_conf(ls, st, host, files, open_paths).cfg.repositories),
    decreases open_paths.len(), 1nat, ls.len(),
{
    if ls.len() > 0 {
        lemma_step_conf_served(ls[0], st, host, files, open_paths);
        lemma_fold_conf_served(ls.drop_first(), step_conf(ls[0], st, host, files, open_paths), host, files, open_paths);
    }
}

proof fn lemma_step_conf_served(
    line: Seq<char>,
    st: ParseV,
    host: Seq<char>,
    files: Seq<(Seq<char>, Seq<char>)>,
    open_paths: Seq<Seq<char>>,
)
    requires
        all_served(st.cfg.repositories),
    ensures
        all_served(step_conf(line, st, host, files, open_paths).cfg.repositories),
    decreases open_paths.len(), 0nat, 1nat,
{
    let t = trim(line);
    if t.len() == 0 || starts_with(t, "#"@) {
    } else if starts_with(t, "["@) && ends_with(t, "]"@) {
        lemma_close_repo_served(st.cfg, st.repo);
    } else {
        lemma_step_kv_served(lowercase(line_key(t)), line_value(t), st, host, files, open_paths);
    }
}

proof fn lemma_step_kv_served(
    key: Seq<char>,
    val: Seq<char>,
    st: ParseV,
    host: Seq<char>,
    files: Seq<(Seq<char>, Seq<char>)>,
    open_paths: Seq<Seq<char>>,
)
    requires
        all_served(st.cfg.repositories),
    ensures
        all_served(step_kv(key, val, st, host, files, open_paths).cfg.repositories),
    decreases open_paths.len(), 0nat, 0nat,
{
    if st.section == Section::Options && key == "include"@ {
        let c = st.cfg;
        let k = find_path(open_paths, val);
        let j = find_file(files, val);
        if val.len() > 0 && 0 <= k < open_paths.len() && 0 <= j < files.len() {
            lemma_parse_conf_served(files[j].1, host, files, open_paths.remove(k));
            let inc = parse_conf(files[j].1, host, files, open_paths.remove(k));
            let rs = c.repositories + inc.repositories;
            assert forall|i: int| 0 <= i < rs.len() implies (#[trigger] rs[i]).servers.len() > 0 by {
                if i < c.repositories.len() {
                    assert(rs[i] == c.repositories[i]);
                } else {
                    assert(rs[i] == inc.repositories[i - c.repositories.len()]);
                }
            }
        }
    }
}

/// Every repository that reading a pacman.conf yields has at least one server:
/// a section without a usable `Server` (or `Include`d mirror) gives none.
pub proof fn law_parsed_repositories_have_servers(
    content: Seq<char>,
    host: Seq<char>,
    includes: Seq<(Seq<char>, Seq<char>)>,
)
    ensures
        all_served(spec_parse_text(content, host, includes).repositories),
{
    lemma_parse_conf_served(content, host, includes, file_paths(includes));
}


/// The name of a section header line (`[name]`, blanks around ignored).
pub open spec fn header_name(line: Seq<char>) -> Option<Seq<char>> {
    let t = trim(line);
    if t.len() == 0 || starts_with(t, "#"@) {
        None
    } else if starts_with(t, "["@) && ends_with(t, "]"@) {
        Some(trim(t.subrange(1, t.len() - 1)))
    } else {
        None
    }
}

/// Each repository `rs[k]` is named by the repository section header at line
/// `idx[k]` of `ls`, and the lines increase with `k`.
pub open spec fn named_by_headers(ls: Seq<Seq<char>>, idx: Seq<int>, rs: Seq<RepoV>) -> bool {
    &&& idx.len() == rs.len()
    &&& forall|k: int|
        0 <= k < idx.len() ==> 0 <= #[trigger] idx[k] < ls.len() && header_name(ls[idx[k]]) == Some(
            rs[k].name,
        ) && !eq_ignore_ascii_case(rs[k].name, "options"@)
    &&& forall|k1: int, k2: int| 0 <= k1 < k2 < idx.len() ==> #[trigger] idx[k1] < #[trigger] idx[k2]
}

/// The repository being read (if any) is named by the header at line `rpos`,
/// after every line of `idx`.
pub open spec fn current_named(ls: Seq<Seq<char>>, idx: Seq<int>, repo: Option<RepoV>, rpos: int, pos: int) -> bool {
    match repo {
        Some(r) => 0 <= rpos < pos && rpos < ls.len() && header_name(ls[rpos]) == Some(r.name)
            && !eq_ignore_ascii_case(r.name, "options"@) && forall|k: int| 0 <= k < idx.len() ==> #[trigger] idx[k] < rpos,
        None => true,
    }
}

/// The parser's state after the first `j` lines, without `Include` files.
pub open spec fn state_at(ls: Seq<Seq<char>>, host: Seq<char>, j: nat) -> ParseV
    decreases j,
{
    if j == 0 {
        ParseV { cfg: spec_default_config(host), section: Section::Top, repo: None }
    } else {
        step_conf(ls[j - 1], state_at(ls, host, (j - 1) as nat), host, seq![], seq![])
    }
}

/// The architecture in effect at line `j`.
pub open spec fn arch_at(ls: Seq<Seq<char>>, host: Seq<char>, j: int) -> Seq<char> {
    state_at(ls, host, j as nat).cfg.architecture
}

/// The index of the first section header at or after line `j`, or the number of lines.
pub open spec fn next_header(ls: Seq<Seq<char>>, j: int) -> int
    decreases ls.len() - j,
{
    if j < 0 || j >= ls.len() {
        ls.len() as int
    } else if header_name(ls[j]) is Some {
        j
    } else {
        next_header(ls, j + 1)
    }
}

/// No line in `a..b` is a section header.
pub open spec fn no_header_between(ls: Seq<Seq<char>>, a: int, b: int) -> bool {
    forall|i: int| a <= i < b ==> (#[trigger] header_name(ls[i])) is None
}

/// The value of a `Server = url` line, when it is not empty.
pub open spec fn server_value(line: Seq<char>) -> Option<Seq<char>> {
    let t = trim(line);
    if t.len() == 0 || starts_with(t, "#"@) || (starts_with(t, "["@) && ends_with(t, "]"@)) {
        None
    } else if lowercase(line_key(t)) == "server"@ && line_value(t).len() > 0 {
        Some(line_value(t))
    } else {
        None
    }
}

/// The servers of the lines `a..b` of a section named `name`, in line order,
/// each with `$repo` and `$arch` expanded by the architecture in effect at its line.
pub open spec fn servers_between(ls: Seq<Seq<char>>, host: Seq<char>, name: Seq<char>, a: int, b: int) -> Seq<
    Seq<char>,
>
    decreases b - a,
{
    if b <= a {
        seq![]
    } else {
        let r = servers_between(ls, host, name, a, b - 1);
        match server_value(ls[b - 1]) {
            Some(v) => r.push(spec_expand(v, name, arch_at(ls, host, b - 1))),
            None => r,
        }
    }
}

/// The servers of the section whose header is line `h`: those of its lines up
/// to the next header.
pub open spec fn section_servers(ls: Seq<Seq<char>>, host: Seq<char>, h: int) -> Seq<Seq<char>> {
    match header_name(ls[h]) {
        Some(n) => servers_between(ls, host, n, h + 1, next_header(ls, h + 1)),
        None => seq![],
    }
}

/// Line `h` is the header of a repository section (not `[options]`).
pub open spec fn opens_repo(ls: Seq<Seq<char>>, h: int) -> bool {
    header_name(ls[h]) matches Some(n) && !eq_ignore_ascii_case(n, "options"@)
}

/// What holds of the parser's state after the first `pos` lines.
pub open spec fn sections_inv(
    all: Seq<Seq<char>>,
    host: Seq<char>,
    idx: Seq<int>,
    st: ParseV,
    rpos: int,
    pos: int,
) -> bool {
    &&& named_by_headers(all, idx, st.cfg.repositories)
    &&& forall|k: int| 0 <= k < idx.len() ==> #[trigger] idx[k] < pos
    &&& forall|k: int|
        0 <= k < idx.len() ==> st.cfg.repositories[k].servers == section_servers(all, host, #[trigger] idx[k])
            && next_header(all, idx[k] + 1) <= pos
    &&& current_named(all, idx, st.repo, rpos, pos)
    &&& st.repo is Some ==> st.section == Section::Repo
    &&& st.repo matches Some(r) ==> r.servers == servers_between(all, host, r.name, rpos + 1, pos)
        && no_header_between(all, rpos + 1, pos)
    &&& forall|h: int|
        0 <= h < pos && #[trigger] opens_repo(all, h) && section_servers(all, host, h).len() > 0 ==> (exists|k: int|
            0 <= k < idx.len() && #[trigger] idx[k] == h) || (st.repo is Some && rpos == h)
}

proof fn lemma_next_header_at(ls: Seq<Seq<char>>, a: int, j: int)
    requires
        0 <= a <= j <= ls.len(),
        no_header_between(ls, a, j),
        j == ls.len() || header_name(ls[j]) is Some,
    ensures
        next_header(ls, a) == j,
    decreases j - a,
{
    if a < j {
        assert(header_name(ls[a]) is None);
        lemma_next_header_at(ls, a + 1, j);
    }
}

proof fn lemma_fold_sections(
    all: Seq<Seq<char>>,
    pos: int,
    st: ParseV,
    host: Seq<char>,
    idx: Seq<int>,
    rpos: int,
) -> (r: (Seq<int>, int))
    requires
        0 <= pos <= all.len(),
        st == state_at(all, host, pos as nat),
        sections_inv(all, host, idx, st, rpos, pos),
    ensures
        sections_inv(
            all,
            host,
            r.0,
            fold_conf(all.skip(pos), st, host, seq![], seq![]),
            r.1,
            all.len() as int,
        ),
    decreases all.len() - pos,
{
    let files: Seq<(Seq<char>, Seq<char>)> = seq![];
    let ops: Seq<Seq<char>> = seq![];
    if pos == all.len() {
        assert(all.skip(pos) =~= Seq::<Seq<char>>::empty());
        (idx, rpos)
    } else {
        let line = all[pos];
        assert(all.skip(pos)[0] == line);
        assert(all.skip(pos).drop_first() =~= all.skip(pos + 1));
        let st2 = step_conf(line, st, host, files, ops);
        assert(state_at(all, host, (pos + 1) as nat) == st2);
        let t = trim(line);
        if t.len() == 0 || starts_with(t, "#"@) {
            assert(header_name(line) is None);
            assert(server_value(line) is None);
            assert(st2 == st);
            if st.repo is Some {
                let rr = st.repo.unwrap();
                assert(servers_between(all, host, rr.name, rpos + 1, pos + 1) == servers_between(
                    all,
                    host,
                    rr.name,
                    rpos + 1,
                    pos,
                ));
            }
            lemma_fold_sections(all, pos + 1, st2, host, idx, rpos)
        } else if starts_with(t, "["@) && ends_with(t, "]"@) {
            let name = trim(t.subrange(1, t.len() - 1));
            assert(header_name(line) == Some(name));
            let pushed = st.repo matches Some(rr) && rr.servers.len() > 0;
            let idx2 = if pushed { idx.push(rpos) } else { idx };
            assert(st2.cfg == close_repo(st.cfg, st.repo));
            if st.repo is Some {
                let rr = st.repo.unwrap();
                lemma_next_header_at(all, rpos + 1, pos);
                assert(section_servers(all, host, rpos) == rr.servers);
            }
            assert(named_by_headers(all, idx2, st2.cfg.repositories)) by {
                if pushed {
                    assert forall|k1: int, k2: int| 0 <= k1 < k2 < idx2.len() implies #[trigger] idx2[k1]
                        < #[trigger] idx2[k2] by {
                        if k2 == idx.len() {
                            assert(idx2[k1] == idx[k1]);
                        } else {
                            assert(idx2[k1] == idx[k1] && idx2[k2] == idx[k2]);
                        }
                    }
                    assert forall|k: int| 0 <= k < idx2.len() implies 0 <= #[trigger] idx2[k] < all.len()
                        && header_name(all[idx2[k]]) == Some(st2.cfg.repositories[k].name) && !eq_ignore_ascii_case(
                        st2.cfg.repositories[k].name,
                        "options"@,
                    ) by {
                        if k < idx.len() {
                            assert(idx2[k] == idx[k]);
                            assert(st2.cfg.repositories[k] == st.cfg.repositories[k]);
                        }
                    }
                }
            }
            assert forall|k: int| 0 <= k < idx2.len() implies #[trigger] idx2[k] < pos + 1 by {
                if k < idx.len() {
                    assert(idx2[k] == idx[k]);
                }
            }
            assert forall|k: int| 0 <= k < idx2.len() implies st2.cfg.repositories[k].servers == section_servers(
                all,
                host,
                #[trigger] idx2[k],
            ) && next_header(all, idx2[k] + 1) <= pos + 1 by {
                if k < idx.len() {
                    assert(idx2[k] == idx[k]);
                    assert(st2.cfg.repositories[k] == st.cfg.repositories[k]);
                }
            }
            let rp2 = pos;
            assert(current_named(all, idx2, st2.repo, rp2, pos + 1)) by {
                if st2.repo is Some {
                    assert(header_name(all[pos]) == Some(st2.repo.unwrap().name));
                    assert forall|k: int| 0 <= k < idx2.len() implies #[trigger] idx2[k] < rp2 by {
                        if k < idx.len() {
                            assert(idx2[k] == idx[k]);
                        }
                    }
                }
            }
            if st2.repo is Some {
                assert(st2.repo.unwrap().servers =~= servers_between(all, host, st2.repo.unwrap().name, rp2 + 1, pos + 1));
            }
            assert forall|h: int|
                0 <= h < pos + 1 && #[trigger] opens_repo(all, h) && section_servers(all, host, h).len() > 0 implies (
            exists|k: int| 0 <= k < idx2.len() && #[trigger] idx2[k] == h) || (st2.repo is Some && rp2 == h) by {
                if h == pos {
                    assert(st2.repo is Some);
                } else if st.repo is Some && rpos == h {
                    assert(pushed);
                    assert(idx2[idx.len() as int] == h);
                } else {
                    let k = choose|k: int| 0 <= k < idx.len() && #[trigger] idx[k] == h;
                    assert(idx2[k] == h);
                }
            }
            lemma_fold_sections(all, pos + 1, st2, host, idx2, rp2)
        } else {
            assert(header_name(line) is None);
            assert(st2 == step_kv(lowercase(line_key(t)), line_value(t), st, host, files, ops));
            assert(st2.cfg.repositories == st.cfg.repositories);
            assert(st2.repo is Some ==> st.repo is Some && st2.section == Section::Repo);
            if st.repo is Some {
                let rr = st.repo.unwrap();
                let r2 = st2.repo.unwrap();
                assert(r2.name == rr.name);
                assert(arch_at(all, host, pos) == st.cfg.architecture);
                assert(r2.servers == servers_between(all, host, rr.name, rpos + 1, pos + 1));
            }
            lemma_fold_sections(all, pos + 1, st2, host, idx, rpos)
        }
    }
}

/// Without `Include` lines, reading a pacman.conf gives one repository per
/// repository section (not `[options]`, matched ignoring ASCII case) that has at
/// least one non-empty `Server` value, in file order: the returned line numbers,
/// one per repository, increase and are each the header of that repository's
/// section, named by its bracketed text; each repository's servers are that
/// section's `Server` values in line order, with `$repo` and `$arch` expanded by
/// the architecture in effect at their line; and every repository section with
/// a server gives a repository.
pub proof fn law_parsed_repositories_follow_sections(content: Seq<char>, host: Seq<char>) -> (idx: Seq<int>)
    ensures
        named_by_headers(lines(content), idx, spec_parse_text(content, host, seq![]).repositories),
        forall|k: int|
            0 <= k < idx.len() ==> spec_parse_text(content, host, seq![]).repositories[k].servers
                == section_servers(lines(content), host, #[trigger] idx[k]),
        forall|h: int|
            0 <= h < lines(content).len() && #[trigger] opens_repo(lines(content), h) && section_servers(
                lines(content),
                host,
                h,
            ).len() > 0 ==> exists|k: int| 0 <= k < idx.len() && #[trigger] idx[k] == h,
{
    let all = lines(content);
    let init = ParseV { cfg: spec_default_config(host), section: Section::Top, repo: None };
    assert(all.skip(0) =~= all);
    assert(file_paths(seq![]) =~= Seq::<Seq<char>>::empty());
    assert(state_at(all, host, 0) == init);
    let r = lemma_fold_sections(all, 0, init, host, seq![], 0);
    let st = fold_conf(all, init, host, seq![], seq![]);
    let n = all.len() as int;
    match st.repo {
        Some(rr) => {
            lemma_next_header_at(all, r.1 + 1, n);
            assert(section_servers(all, host, r.1) == rr.servers);
            if rr.servers.len() > 0 {
                let idx = r.0.push(r.1);
                let rs = st.cfg.repositories.push(rr);
                assert forall|k1: int, k2: int| 0 <= k1 < k2 < idx.len() implies #[trigger] idx[k1]
                    < #[trigger] idx[k2] by {
                    if k2 == r.0.len() {
                        assert(idx[k1] == r.0[k1]);
                    } else {
                        assert(idx[k1] == r.0[k1] && idx[k2] == r.0[k2]);
                    }
                }
                assert forall|k: int| 0 <= k < idx.len() implies 0 <= #[trigger] idx[k] < all.len() && header_name(
                    all[idx[k]],
                ) == Some(rs[k].name) && !eq_ignore_ascii_case(rs[k].name, "options"@) by {
                    if k < r.0.len() {
                        assert(idx[k] == r.0[k]);
                        assert(rs[k] == st.cfg.repositories[k]);
                    }
                }
                assert forall|k: int| 0 <= k < idx.len() implies rs[k].servers == section_servers(
                    all,
                    host,
                    #[trigger] idx[k],
                ) by {
                    if k < r.0.len() {
                        assert(idx[k] == r.0[k]);
                        assert(rs[k] == st.cfg.repositories[k]);
                    }
                }
                assert forall|h: int|
                    0 <= h < n && #[trigger] opens_repo(all, h) && section_servers(all, host, h).len() > 0 implies exists|
                    k: int,
                | 0 <= k < idx.len() && #[trigger] idx[k] == h by {
                    if h == r.1 {
                        assert(idx[r.0.len() as int] == h);
                    } else {
                        let k = choose|k: int| 0 <= k < r.0.len() && #[trigger] r.0[k] == h;
                        assert(idx[k] == h);
                    }
                }
                idx
            } else {
                r.0
            }
        },
        None => r.0,
    }
}

// ----------------------------------------------------------------------------
// Dates of Unix timestamps
// ----------------------------------------------------------------------------

/// The number of days from the start of year `y0` to the start of year `y`.
pub open spec fn days_from(y0: int, y: int) -> int
    decreases y - y0,
{
    if y <= y0 {
        0
    } else {
        year_length(y0) + days_from(y0 + 1, y)
    }
}

/// The sum of the numbers.
pub open spec fn seq_sum(s: Seq<int>) -> int
    decreases s.len(),
{
    if s.len() == 0 {
        0
    } else {
        s[0] + seq_sum(s.drop_first())
    }
}

proof fn lemma_year_and_day(days: int, year: int)
    requires
        days >= 0,
    ensures
        year_and_day(days, year).0 >= year,
        0 <= year_and_day(days, year).1 < year_length(year_and_day(days, year).0),
        days == days_from(year, year_and_day(days, year).0) + year_and_day(days, year).1,
    decreases days,
{
    if days >= year_length(year) {
        lemma_year_and_day(days - year_length(year), year + 1);
    }
}

proof fn lemma_month_and_day(d: int, ms: Seq<int>, month: int)
    requires
        0 <= d < seq_sum(ms),
    ensures
        month <= month_and_day(d, ms, month).0 < month + ms.len(),
        0 <= month_and_day(d, ms, month).1 < ms[month_and_day(d, ms, month).0 - month],
        d == seq_sum(ms.take(month_and_day(d, ms, month).0 - month)) + month_and_day(d, ms, month).1,
    decreases ms.len(),
{
    if ms.len() > 0 && d >= ms[0] {
        lemma_month_and_day(d - ms[0], ms.drop_first(), month + 1);
        let m = month_and_day(d, ms, month).0;
        let k = m - month;
        assert(ms.take(k).drop_first() =~= ms.drop_first().take(k - 1));
        assert(ms.take(k)[0] == ms[0]);
    } else {
        assert(ms.len() > 0);
        assert(ms.take(0) =~= Seq::<int>::empty());
    }
}

proof fn lemma_year_months(y: int)
    ensures
        seq_sum(month_lengths(y)) == year_length(y),
        month_lengths(y).len() == 12,
{
    let ms = month_lengths(y);
    reveal_with_fuel(seq_sum, 13);
    assert(ms.drop_first() =~= seq![ms[1], 31, 30, 31, 30, 31, 31, 30, 31, 30, 31]);
    assert(ms.drop_first().drop_first() =~= seq![31, 30, 31, 30, 31, 31, 30, 31, 30, 31]);
}

/// The date given for `days` days after 1970-01-01 is the proleptic Gregorian
/// one: the year, month (1 to 12) and day within the month whose count of days
/// since 1970-01-01 (whole years of 365 or 366 days, then whole months) is `days`.
pub proof fn law_unix_date_is_gregorian(days: int)
    requires
        days >= 0,
    ensures
        ({
            let (y, d) = year_and_day(days, 1970);
            let (m, dm) = month_and_day(d, month_lengths(y), 1);
            &&& y >= 1970
            &&& 1 <= m <= 12
            &&& 0 <= dm < month_lengths(y)[m - 1]
            &&& days == days_from(1970, y) + seq_sum(month_lengths(y).take(m - 1)) + dm
        }),
{
    lemma_year_and_day(days, 1970);
    let (y, d) = year_and_day(days, 1970);
    lemma_year_months(y);
    lemma_month_and_day(d, month_lengths(y), 1);
}

} // verus!
