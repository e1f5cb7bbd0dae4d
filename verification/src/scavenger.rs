//! Dependency scavenging: which package should provide a missing shared library,
//! and the bookkeeping of the scavenging rounds.

use vstd::prelude::*;
use crate::config::strings_view;
use crate::text::{
    chars_of, concat, contains, contains_chars, eq_chars, eq_str, lowercase, occurs_at,
    occurs_at_chars, replace, replace_str, slice_chars, starts_with, starts_with_chars,
    to_lowercase_chars,
};

verus! {

// ----------------------------------------------------------------------------
// Matching a shared-library name to a package name
// ----------------------------------------------------------------------------

/// Index of the first occurrence of `p` in `s` at or after `i`, or `s.len()`.
pub open spec fn find_str(s: Seq<char>, p: Seq<char>, i: int) -> int
    decreases s.len() - i,
{
    if i < 0 || i >= s.len() || i + p.len() > s.len() {
        s.len() as int
    } else if occurs_at(s, p, i) {
        i
    } else {
        find_str(s, p, i + 1)
    }
}

pub proof fn lemma_find_str_bounds(s: Seq<char>, p: Seq<char>, i: int)
    ensures
        0 <= i ==> i <= find_str(s, p, i) || find_str(s, p, i) == s.len(),
        find_str(s, p, i) <= s.len(),
        find_str(s, p, i) < s.len() ==> occurs_at(s, p, find_str(s, p, i)),
    decreases s.len() - i,
{
    if i < 0 || i >= s.len() || i + p.len() > s.len() {
    } else if occurs_at(s, p, i) {
    } else {
        lemma_find_str_bounds(s, p, i + 1);
    }
}

/// The first occurrence of `p` in `v` at or after `i`, or `v.len()`.
pub fn find_str_from(v: &[char], p: &str, i: usize) -> (j: usize)
    requires
        i <= v.len(),
    ensures
        j == find_str(v@, p@, i as int),
{
    let pv = chars_of(p);
    let mut j: usize = i;
    while j < v.len() && pv.len() <= v.len() - j && !occurs_at_chars(v, &pv, j)
        invariant
            i <= j <= v.len(),
            pv@ == p@,
            find_str(v@, p@, i as int) == find_str(v@, p@, j as int),
        decreases v.len() - j,
    {
        j = j + 1;
    }
    if j >= v.len() || pv.len() > v.len() - j {
        v.len()
    } else {
        j
    }
}

/// The library name before its first `.so`.
pub open spec fn so_base(sl: Seq<char>) -> Seq<char> {
    sl.take(find_str(sl, ".so"@, 0))
}

/// The text between the first and the second `.so` (the version part), without
/// its leading dots; empty when there is no `.so`.
pub open spec fn so_version(sl: Seq<char>) -> Seq<char> {
    let f0 = find_str(sl, ".so"@, 0);
    if f0 < sl.len() {
        trim_leading(sl.subrange(f0 + 3, find_str(sl, ".so"@, f0 + 3)), '.')
    } else {
        seq![]
    }
}

/// `s` without its leading `c` characters (`str::trim_start_matches(c)`).
pub open spec fn trim_leading(s: Seq<char>, c: char) -> Seq<char>
    decreases s.len(),
{
    if s.len() > 0 && s[0] == c {
        trim_leading(s.drop_first(), c)
    } else {
        s
    }
}

/// Whether the package named `pkg` plausibly ships the library `soname`
/// (both compared lowercased): KDE Frameworks 6 and Qt 6 naming, the library
/// name with its version, without its `lib` prefix, as a prefix of the package,
/// with a dotted version written with dashes, or with the `.so` parts removed.
pub open spec fn spec_soname_matches(soname: Seq<char>, pkg: Seq<char>) -> bool {
    let sl = lowercase(soname);
    let pl = lowercase(pkg);
    let base = so_base(sl);
    let ver = so_version(sl);
    let kf = "k"@ + base.skip(6);
    let qt = "qt6-"@ + base.skip(6);
    let nolib = base.skip(3);
    let clean = replace(replace(sl, ".so."@, seq![]), ".so"@, seq![]);
    ||| (starts_with(base, "libkf6"@) && (pl == kf || contains(pl, kf)))
    ||| (starts_with(base, "libqt6"@) && (pl == qt || contains(pl, qt)))
    ||| pl == base + ver
    ||| (starts_with(base, "lib"@) && (pl == nolib || starts_with(pl, nolib) || starts_with(nolib, pl)))
    ||| (ver.len() > 0 && starts_with(pl, base + ver))
    ||| (starts_with(pl, base) && ver.len() > 0 && contains(pl, ver))
    ||| (contains(ver, "."@) && (contains(pl, replace(ver, "."@, "-"@)) || contains(pl, ver)))
    ||| (starts_with(pl, clean) || starts_with(clean, pl))
}

fn prefixed(pre: &str, rest: &[char]) -> (r: Vec<char>)
    ensures
        r@ == pre@ + rest@,
{
    let p = chars_of(pre);
    concat(&p, rest)
}

/// Whether the package `pkg` plausibly provides the shared library `soname`.
pub fn soname_matches_package(soname: &str, pkg: &str) -> (b: bool)
    ensures
        b == spec_soname_matches(soname@, pkg@),
{
    let sl = to_lowercase_chars(&chars_of(soname));
    let pl = to_lowercase_chars(&chars_of(pkg));
    let f0 = find_str_from(&sl, ".so", 0);
    proof {
        lemma_find_str_bounds(sl@, ".so"@, 0);
        reveal_strlit(".so");
    }
    let base = slice_chars(&sl, 0, f0);
    assert(base@ == so_base(sl@));
    let ver: Vec<char> = if f0 < sl.len() {
        assert(occurs_at(sl@, ".so"@, f0 as int));
        let f1 = find_str_from(&sl, ".so", f0 + 3);
        proof {
            lemma_find_str_bounds(sl@, ".so"@, f0 + 3);
        }
        let raw = slice_chars(&sl, f0 + 3, f1);
        let mut k: usize = 0;
        assert(raw@.skip(0) == raw@);
        while k < raw.len() && raw[k] == '.'
            invariant
                k <= raw.len(),
                trim_leading(raw@, '.') == trim_leading(raw@.skip(k as int), '.'),
            decreases raw.len() - k,
        {
            assert(raw@.skip(k as int).drop_first() == raw@.skip(k + 1));
            k = k + 1;
        }
        let t = slice_chars(&raw, k, raw.len());
        assert(t@ == raw@.skip(k as int));
        assert(raw@.skip(0) == raw@);
        t
    } else {
        Vec::new()
    };
    assert(ver@ == so_version(sl@));
    proof {
        reveal_strlit("libkf6");
        reveal_strlit("libqt6");
        reveal_strlit("lib");
    }
    // KDE Frameworks 6: libkf6archive -> karchive
    if starts_with_chars(&base, &chars_of("libkf6")) {
        let kf = prefixed("k", &slice_chars(&base, 6, base.len()));
        assert(base@.subrange(6, base@.len() as int) == base@.skip(6));
        if eq_chars(&pl, &kf) || contains_chars(&pl, &kf) {
            return true;
        }
    }
    // Qt 6: libqt6svg -> qt6-svg
    if starts_with_chars(&base, &chars_of("libqt6")) {
        let qt = prefixed("qt6-", &slice_chars(&base, 6, base.len()));
        assert(base@.subrange(6, base@.len() as int) == base@.skip(6));
        if eq_chars(&pl, &qt) || contains_chars(&pl, &qt) {
            return true;
        }
    }
    let base_ver = concat(&base, &ver);
    if eq_chars(&pl, &base_ver) {
        return true;
    }
    if starts_with_chars(&base, &chars_of("lib")) {
        let nolib = slice_chars(&base, 3, base.len());
        assert(base@.subrange(3, base@.len() as int) == base@.skip(3));
        if eq_chars(&pl, &nolib) || starts_with_chars(&pl, &nolib) || starts_with_chars(&nolib, &pl) {
            return true;
        }
    }
    if ver.len() > 0 && starts_with_chars(&pl, &base_ver) {
        return true;
    }
    if starts_with_chars(&pl, &base) && ver.len() > 0 && contains_chars(&pl, &ver) {
        return true;
    }
    if contains_chars(&ver, &chars_of(".")) {
        proof {
            reveal_strlit(".");
        }
        let dash = replace_str(&ver, ".", &chars_of("-"));
        if contains_chars(&pl, &dash) || contains_chars(&pl, &ver) {
            return true;
        }
    }
    proof {
        reveal_strlit(".so.");
    }
    let empty: Vec<char> = Vec::new();
    let c1 = replace_str(&sl, ".so.", &empty);
    let clean = replace_str(&c1, ".so", &empty);
    assert(empty@ == Seq::<char>::empty());
    if starts_with_chars(&pl, &clean) || starts_with_chars(&clean, &pl) {
        return true;
    }
    false
}

/// The packages every host already has.
pub open spec fn host_base_packages() -> Seq<Seq<char>> {
    seq![
        "libc6"@, "libc-bin"@, "libgcc-s1"@, "libstdc++6"@, "linux-libc-dev"@, "base-files"@,
        "base-passwd"@, "dpkg"@, "debconf"@, "glibc"@, "gcc-libs"@, "libstdc++"@,
        "filesystem"@, "systemd-libs"@,
    ]
}

/// Whether `pkg` is one of the base packages every host already has.
pub fn is_known_host_base_pkg(pkg: &str) -> (b: bool)
    ensures
        b == host_base_packages().contains(pkg@),
{
    let base: [&str; 14] = [
        "libc6", "libc-bin", "libgcc-s1", "libstdc++6", "linux-libc-dev", "base-files",
        "base-passwd", "dpkg", "debconf", "glibc", "gcc-libs", "libstdc++", "filesystem",
        "systemd-libs",
    ];
    let ghost hb = host_base_packages();
    assert(base@.map_values(|s: &str| s@) =~= hb);
    let v = chars_of(pkg);
    let mut i: usize = 0;
    while i < 14
        invariant
            i <= 14,
            v@ == pkg@,
            base@.map_values(|s: &str| s@) == hb,
            hb == host_base_packages(),
            forall|k: int| 0 <= k < i ==> hb[k] != pkg@,
        decreases 14 - i,
    {
        assert(hb[i as int] == base@[i as int]@);
        if eq_str(&v, base[i]) {
            assert(hb[i as int] == pkg@);
            return true;
        }
        i = i + 1;
    }
    assert(!hb.contains(pkg@)) by {
        if hb.contains(pkg@) {
            let k = choose|k: int| 0 <= k < hb.len() && hb[k] == pkg@;
            assert(hb[k] != pkg@);
        }
    }
    false
}

// ----------------------------------------------------------------------------
// Scavenging rounds
// ----------------------------------------------------------------------------

/// The most scavenging rounds before giving up.
pub const MAX_SCAVENGE_ROUNDS: usize = 12;

/// What the scavenger knows between rounds: the packages already fetched (the
/// primary package first), the pool of candidate dependencies, and the
/// packages scavenged so far.
#[derive(Debug, Clone)]
pub struct ScavengeState {
    pub fetched: Vec<String>,
    pub candidate_pool: Vec<String>,
    pub scavenged: Vec<String>,
    pub iteration: usize,
}

/// A fallback candidate: not fetched yet and not a host base package.
pub open spec fn fallback_ok(fetched: Seq<Seq<char>>, c: Seq<char>) -> bool {
    !fetched.contains(c) && !host_base_packages().contains(c)
}

/// The first `n` fallback candidates of `pool`, in order.
pub open spec fn fallback_from(pool: Seq<Seq<char>>, fetched: Seq<Seq<char>>, n: nat) -> Seq<Seq<char>>
    decreases pool.len(),
{
    if pool.len() == 0 || n == 0 {
        seq![]
    } else if fallback_ok(fetched, pool[0]) {
        seq![pool[0]] + fallback_from(pool.drop_first(), fetched, (n - 1) as nat)
    } else {
        fallback_from(pool.drop_first(), fetched, n)
    }
}

/// `deps` appended to `pool`, each one that is not there yet.
pub open spec fn merge_deps(pool: Seq<Seq<char>>, deps: Seq<Seq<char>>) -> Seq<Seq<char>>
    decreases deps.len(),
{
    if deps.len() == 0 {
        pool
    } else {
        let p = merge_deps(pool, deps.drop_last());
        if p.contains(deps.last()) { p } else { p.push(deps.last()) }
    }
}

/// Whether the text `x` is in the list.
fn list_contains(v: &Vec<String>, x: &str) -> (b: bool)
    ensures
        b == strings_view(v@).contains(x@),
{
    let xv = chars_of(x);
    let ghost sv = strings_view(v@);
    let mut i: usize = 0;
    while i < v.len()
        invariant
            i <= v.len(),
            sv == strings_view(v@),
            xv@ == x@,
            forall|k: int| 0 <= k < i ==> sv[k] != x@,
        decreases v.len() - i,
    {
        assert(sv[i as int] == v@[i as int]@);
        if eq_chars(&chars_of(v[i].as_str()), &xv) {
            return true;
        }
        i = i + 1;
    }
    assert(!sv.contains(x@)) by {
        if sv.contains(x@) {
            let k = choose|k: int| 0 <= k < sv.len() && sv[k] == x@;
            assert(sv[k] != x@);
        }
    }
    false
}

impl ScavengeState {
    /// The state before the first round: only the primary package is fetched,
    /// and the pool holds its declared dependencies.
    pub fn new(primary_pkg: &str, initial_deps: &[String]) -> (st: ScavengeState)
        ensures
            strings_view(st.fetched@) == seq![primary_pkg@],
            strings_view(st.candidate_pool@) == strings_view(initial_deps@),
            st.scavenged@.len() == 0,
            st.iteration == 0,
    {
        let mut fetched: Vec<String> = Vec::new();
        fetched.push(primary_pkg.to_owned());
        assert(strings_view(fetched@) =~= seq![primary_pkg@]);
        let mut pool: Vec<String> = Vec::new();
        let mut i: usize = 0;
        while i < initial_deps.len()
            invariant
                i <= initial_deps.len(),
                strings_view(pool@) == strings_view(initial_deps@.take(i as int)),
            decreases initial_deps.len() - i,
        {
            let ghost b = strings_view(pool@);
            pool.push(initial_deps[i].clone());
            assert(strings_view(pool@) == b.push(initial_deps@[i as int]@));
            assert(strings_view(initial_deps@.take(i + 1)) == strings_view(initial_deps@.take(i as int)).push(
                initial_deps@[i as int]@,
            ));
            i = i + 1;
        }
        assert(initial_deps@.take(i as int) == initial_deps@);
        ScavengeState { fetched, candidate_pool: pool, scavenged: Vec::new(), iteration: 0 }
    }

    /// Starts a round; `false` once the round limit is passed.
    pub fn next_round(&mut self) -> (go: bool)
        requires
            old(self).iteration <= MAX_SCAVENGE_ROUNDS,
        ensures
            final(self).iteration == old(self).iteration + 1,
            go == (final(self).iteration <= MAX_SCAVENGE_ROUNDS),
            final(self).fetched == old(self).fetched,
            final(self).candidate_pool == old(self).candidate_pool,
            final(self).scavenged == old(self).scavenged,
    {
        self.iteration = self.iteration + 1;
        self.iteration <= MAX_SCAVENGE_ROUNDS
    }

    /// Whether `pkg` was fetched already.
    pub fn is_fetched(&self, pkg: &str) -> (b: bool)
        ensures
            b == strings_view(self.fetched@).contains(pkg@),
    {
        list_contains(&self.fetched, pkg)
    }

    /// The first candidate of the pool, not fetched yet, that may provide `soname`.
    pub fn pool_candidate_for(&self, soname: &str) -> (r: Option<String>)
        ensures
            match r {
                Some(c) => first_pool_candidate(self@.fetched, self@.pool, soname@) == Some(c@),
                None => first_pool_candidate(self@.fetched, self@.pool, soname@).is_none(),
            },
    {
        let ghost pool = self@.pool;
        let mut i: usize = 0;
        assert(pool.skip(0) =~= pool);
        while i < self.candidate_pool.len()
            invariant
                i <= self.candidate_pool.len(),
                pool == self@.pool,
                first_pool_candidate(self@.fetched, pool, soname@) == first_pool_candidate(
                    self@.fetched,
                    pool.skip(i as int),
                    soname@,
                ),
            decreases self.candidate_pool.len() - i,
        {
            let c = self.candidate_pool[i].as_str();
            assert(pool.skip(i as int)[0] == c@);
            assert(pool.skip(i as int).drop_first() =~= pool.skip(i + 1));
            if !list_contains(&self.fetched, c) && soname_matches_package(soname, c) {
                return Some(self.candidate_pool[i].clone());
            }
            i = i + 1;
        }
        None
    }

    /// An online answer for a library, kept when that package was not fetched yet.
    pub fn accept_online(&self, online: Option<String>) -> (r: Option<String>)
        ensures
            match online {
                Some(p) => if strings_view(self.fetched@).contains(p@) {
                    r.is_none()
                } else {
                    r == Some(p)
                },
                None => r.is_none(),
            },
    {
        match online {
            Some(p) => {
                if list_contains(&self.fetched, p.as_str()) {
                    None
                } else {
                    Some(p)
                }
            },
            None => None,
        }
    }

    /// Adds `pkg` to the packages to fetch this round, unless it was fetched
    /// already or is queued.
    pub fn queue_package(&self, queue: &mut Vec<String>, pkg: String)
        ensures
            strings_view(final(queue)@) == if strings_view(self.fetched@).contains(pkg@)
                || strings_view(old(queue)@).contains(pkg@) {
                strings_view(old(queue)@)
            } else {
                strings_view(old(queue)@).push(pkg@)
            },
    {
        if !list_contains(&self.fetched, pkg.as_str()) && !list_contains(queue, pkg.as_str()) {
            let ghost b = strings_view(queue@);
            let ghost pv = pkg@;
            queue.push(pkg);
            assert(strings_view(queue@) == b.push(pv));
        }
    }

    /// When no library could be attributed: up to six candidates of the pool that
    /// were not fetched and are not host base packages, in pool order.
    pub fn fallback_packages(&self) -> (r: Vec<String>)
        ensures
            strings_view(r@) == fallback_from(strings_view(self.candidate_pool@), strings_view(self.fetched@), 6),
    {
        let ghost pool = strings_view(self.candidate_pool@);
        let ghost fetched = strings_view(self.fetched@);
        let mut r: Vec<String> = Vec::new();
        let mut i: usize = 0;
        assert(pool.skip(0) == pool);
        while i < self.candidate_pool.len() && r.len() < 6
            invariant
                i <= self.candidate_pool.len(),
                r.len() <= 6,
                pool == strings_view(self.candidate_pool@),
                fetched == strings_view(self.fetched@),
                strings_view(r@) + fallback_from(pool.skip(i as int), fetched, (6 - r.len()) as nat)
                    == fallback_from(pool, fetched, 6),
            decreases self.candidate_pool.len() - i,
        {
            let c = self.candidate_pool[i].as_str();
            let ghost rest = pool.skip(i as int);
            assert(rest[0] == c@);
            assert(rest.drop_first() == pool.skip(i + 1));
            if !list_contains(&self.fetched, c) && !is_known_host_base_pkg(c) {
                let ghost b = strings_view(r@);
                r.push(self.candidate_pool[i].clone());
                assert(strings_view(r@) == b.push(c@));
                assert(b + fallback_from(rest, fetched, (6 - b.len()) as nat) == b + (seq![c@]
                    + fallback_from(pool.skip(i + 1), fetched, (6 - b.len() - 1) as nat)));
                assert(b + (seq![c@] + fallback_from(pool.skip(i + 1), fetched, (6 - b.len() - 1) as nat))
                    =~= strings_view(r@) + fallback_from(pool.skip(i + 1), fetched, (6 - r.len()) as nat));
            }
            i = i + 1;
        }
        proof {
            if r.len() == 6 {
                assert(fallback_from(pool.skip(i as int), fetched, 0) == Seq::<Seq<char>>::empty());
            } else {
                assert(pool.skip(i as int).len() == 0);
            }
            assert(strings_view(r@) + Seq::<Seq<char>>::empty() == strings_view(r@));
        }
        r
    }

    /// Records that `pkg` is being fetched.
    pub fn mark_fetched(&mut self, pkg: &str)
        ensures
            strings_view(final(self).fetched@) == if strings_view(old(self).fetched@).contains(pkg@) {
                strings_view(old(self).fetched@)
            } else {
                strings_view(old(self).fetched@).push(pkg@)
            },
            final(self).candidate_pool == old(self).candidate_pool,
            final(self).scavenged == old(self).scavenged,
            final(self).iteration == old(self).iteration,
    {
        if !list_contains(&self.fetched, pkg) {
            let ghost b = strings_view(self.fetched@);
            self.fetched.push(pkg.to_owned());
            assert(strings_view(self.fetched@) == b.push(pkg@));
        }
    }

    /// Records that `pkg` was unpacked, and adds its dependencies to the pool.
    pub fn record_scavenged(&mut self, pkg: String, deps: &[String])
        ensures
            strings_view(final(self).scavenged@) == strings_view(old(self).scavenged@).push(pkg@),
            strings_view(final(self).candidate_pool@) == merge_deps(
                strings_view(old(self).candidate_pool@),
                strings_view(deps@),
            ),
            final(self).fetched == old(self).fetched,
            final(self).iteration == old(self).iteration,
    {
        let ghost b = strings_view(self.scavenged@);
        let ghost pv = pkg@;
        self.scavenged.push(pkg);
        assert(strings_view(self.scavenged@) == b.push(pv));
        let ghost pool0 = strings_view(self.candidate_pool@);
        let ghost dv = strings_view(deps@);
        let mut i: usize = 0;
        assert(dv.take(0) =~= Seq::<Seq<char>>::empty());
        while i < deps.len()
            invariant
                i <= deps.len(),
                dv == strings_view(deps@),
                strings_view(self.candidate_pool@) == merge_deps(pool0, dv.take(i as int)),
                strings_view(self.scavenged@) == b.push(pv),
                self.fetched == old(self).fetched,
                self.iteration == old(self).iteration,
            decreases deps.len() - i,
        {
            assert(dv.take(i + 1).drop_last() == dv.take(i as int));
            assert(dv.take(i + 1).last() == deps@[i as int]@);
            if !list_contains(&self.candidate_pool, deps[i].as_str()) {
                let ghost c = strings_view(self.candidate_pool@);
                self.candidate_pool.push(deps[i].clone());
                assert(strings_view(self.candidate_pool@) == c.push(deps@[i as int]@));
            }
            i = i + 1;
        }
        assert(dv.take(i as int) == dv);
    }
}


// ----------------------------------------------------------------------------
// A scavenging round
// ----------------------------------------------------------------------------

/// The bookkeeping of the scavenger as values: packages fetched (the primary
/// package first), the candidate pool, and the packages scavenged.
pub struct ScavengeV {
    pub fetched: Seq<Seq<char>>,
    pub pool: Seq<Seq<char>>,
    pub scavenged: Seq<Seq<char>>,
}

impl View for ScavengeState {
    type V = ScavengeV;

    open spec fn view(&self) -> ScavengeV {
        ScavengeV {
            fetched: strings_view(self.fetched@),
            pool: strings_view(self.candidate_pool@),
            scavenged: strings_view(self.scavenged@),
        }
    }
}

/// The first candidate of `pool`, not fetched yet, that may provide `soname`.
pub open spec fn first_pool_candidate(fetched: Seq<Seq<char>>, pool: Seq<Seq<char>>, soname: Seq<char>) -> Option<
    Seq<char>,
>
    decreases pool.len(),
{
    if pool.len() == 0 {
        None
    } else if !fetched.contains(pool[0]) && spec_soname_matches(soname, pool[0]) {
        Some(pool[0])
    } else {
        first_pool_candidate(fetched, pool.drop_first(), soname)
    }
}

/// A missing library as a round sees it: its name, whether a copy from the
/// shared organ store or the state ledger was put in place, and the package
/// that an online index names for it (asked only when the pool has no candidate).
pub struct OrganNeed {
    pub soname: String,
    pub reused: bool,
    pub online: Option<String>,
}

pub open spec fn need_view(n: OrganNeed) -> (Seq<char>, bool, Option<Seq<char>>) {
    (n.soname@, n.reused, match n.online {
        Some(p) => Some(p@),
        None => None,
    })
}

pub open spec fn needs_view(ns: Seq<OrganNeed>) -> Seq<(Seq<char>, bool, Option<Seq<char>>)> {
    ns.map_values(|n: OrganNeed| need_view(n))
}

/// The donor package for a library that was not reused: the pool's candidate,
/// or else the online answer when it was not fetched yet.
pub open spec fn donor_for(fetched: Seq<Seq<char>>, pool: Seq<Seq<char>>, n: (Seq<char>, bool, Option<Seq<char>>)) -> Option<
    Seq<char>,
> {
    match first_pool_candidate(fetched, pool, n.0) {
        Some(c) => Some(c),
        None => match n.2 {
            Some(p) => if fetched.contains(p) {
                None
            } else {
                Some(p)
            },
            None => None,
        },
    }
}

/// The donors of the libraries, in order, each once and none fetched already.
pub open spec fn donor_queue(fetched: Seq<Seq<char>>, pool: Seq<Seq<char>>, needs: Seq<(Seq<char>, bool, Option<Seq<char>>)>) -> Seq<
    Seq<char>,
>
    decreases needs.len(),
{
    if needs.len() == 0 {
        seq![]
    } else {
        let q = donor_queue(fetched, pool, needs.drop_last());
        let n = needs.last();
        if n.1 {
            q
        } else {
            match donor_for(fetched, pool, n) {
                Some(p) => if fetched.contains(p) || q.contains(p) {
                    q
                } else {
                    q.push(p)
                },
                None => q,
            }
        }
    }
}

/// The packages a round fetches: the donors of the missing libraries, or, when
/// no library found one, up to six candidates of the pool (see [`fallback_from`]).
pub open spec fn spec_plan_round(v: ScavengeV, needs: Seq<(Seq<char>, bool, Option<Seq<char>>)>) -> Seq<Seq<char>> {
    let q = donor_queue(v.fetched, v.pool, needs);
    if q.len() == 0 {
        fallback_from(v.pool, v.fetched, 6)
    } else {
        q
    }
}

/// The bookkeeping after fetching `pkg`: it is fetched, and when it was
/// unpacked (its dependencies are known) it is scavenged and its dependencies
/// join the pool.
pub open spec fn fetch_step(v: ScavengeV, pkg: Seq<char>, deps: Option<Seq<Seq<char>>>) -> ScavengeV {
    let f = if v.fetched.contains(pkg) { v.fetched } else { v.fetched.push(pkg) };
    match deps {
        Some(d) => ScavengeV { fetched: f, pool: merge_deps(v.pool, d), scavenged: v.scavenged.push(pkg) },
        None => ScavengeV { fetched: f, pool: v.pool, scavenged: v.scavenged },
    }
}

/// The bookkeeping after fetching the packages of a round in order, with what
/// each fetch gave (its dependencies, or `None` when it failed).
pub open spec fn apply_fetches(v: ScavengeV, plan: Seq<Seq<char>>, outcomes: Seq<Option<Seq<Seq<char>>>>) -> ScavengeV
    decreases plan.len(),
{
    if plan.len() == 0 || outcomes.len() == 0 {
        v
    } else {
        apply_fetches(fetch_step(v, plan[0], outcomes[0]), plan.drop_first(), outcomes.drop_first())
    }
}

/// The packages a round fetches, or `None` when the round ends scavenging:
/// nothing is missing, or no package to fetch was found.
pub open spec fn round_plan(v: ScavengeV, needs: Seq<(Seq<char>, bool, Option<Seq<char>>)>) -> Option<Seq<Seq<char>>> {
    if needs.len() == 0 {
        None
    } else if spec_plan_round(v, needs).len() == 0 {
        None
    } else {
        Some(spec_plan_round(v, needs))
    }
}

/// Why scavenging ended.
#[derive(Debug, Clone, Copy, PartialEq, Eq, Structural)]
pub enum ScavengeEnd {
    /// The round limit was reached.
    RoundLimit,
    /// No library is missing.
    Satisfied,
    /// No package to fetch was found for the missing libraries.
    NoDonors,
    /// A round unpacked no package.
    NothingScavenged,
}

pub open spec fn outcomes_view(o: Seq<Option<Vec<String>>>) -> Seq<Option<Seq<Seq<char>>>> {
    o.map_values(
        |x: Option<Vec<String>>|
            match x {
                Some(d) => Some(strings_view(d@)),
                None => None,
            },
    )
}

impl ScavengeState {
    /// The packages to fetch this round from the libraries still missing, or why
    /// scavenging ends: [`ScavengeEnd::Satisfied`] when none is missing,
    /// [`ScavengeEnd::NoDonors`] when no package was found (see [`round_plan`]).
    pub fn plan_or_stop(&self, needs: &[OrganNeed]) -> (r: Result<Vec<String>, ScavengeEnd>)
        ensures
            match r {
                Ok(p) => round_plan(self@, needs_view(needs@)) == Some(strings_view(p@)),
                Err(e) => round_plan(self@, needs_view(needs@)).is_none() && e == (if needs@.len() == 0 {
                    ScavengeEnd::Satisfied
                } else {
                    ScavengeEnd::NoDonors
                }),
            },
    {
        if needs.len() == 0 {
            return Err(ScavengeEnd::Satisfied);
        }
        let plan = self.plan_round(needs);
        if plan.len() == 0 {
            return Err(ScavengeEnd::NoDonors);
        }
        Ok(plan)
    }

    /// Records the fetches of a round in order (see [`apply_fetches`]): each
    /// package with its dependencies when it was unpacked, or `None`. Returns
    /// whether any package was scavenged; scavenging ends
    /// ([`ScavengeEnd::NothingScavenged`]) when none was.
    pub fn apply_round(&mut self, plan: Vec<String>, outcomes: Vec<Option<Vec<String>>>) -> (grew: bool)
        ensures
            final(self)@ == apply_fetches(old(self)@, strings_view(plan@), outcomes_view(outcomes@)),
            final(self).iteration == old(self).iteration,
            grew == (final(self)@.scavenged.len() != old(self)@.scavenged.len()),
    {
        let ghost target = apply_fetches(self@, strings_view(plan@), outcomes_view(outcomes@));
        let before = self.scavenged.len();
        let mut plan = plan;
        let mut outcomes = outcomes;
        while plan.len() > 0 && outcomes.len() > 0
            invariant
                target == apply_fetches(self@, strings_view(plan@), outcomes_view(outcomes@)),
                self.iteration == old(self).iteration,
                self@.scavenged.len() >= before,
                self@.scavenged.len() == self.scavenged@.len(),
                before == old(self)@.scavenged.len(),
            decreases plan.len(),
        {
            let ghost pv = strings_view(plan@);
            let ghost ov = outcomes_view(outcomes@);
            let pkg = plan.remove(0);
            let o = outcomes.remove(0);
            assert(strings_view(plan@) =~= pv.drop_first());
            assert(outcomes_view(outcomes@) =~= ov.drop_first());
            assert(pv[0] == pkg@);
            self.complete_fetch(pkg, o);
        }
        assert(target == self@);
        self.scavenged.len() != before
    }

    /// The packages to fetch this round, from the missing libraries (see
    /// [`spec_plan_round`]).
    pub fn plan_round(&self, needs: &[OrganNeed]) -> (r: Vec<String>)
        ensures
            strings_view(r@) == spec_plan_round(self@, needs_view(needs@)),
    {
        let ghost nv = needs_view(needs@);
        let mut queue: Vec<String> = Vec::new();
        let mut i: usize = 0;
        assert(nv.take(0) =~= Seq::<(Seq<char>, bool, Option<Seq<char>>)>::empty());
        while i < needs.len()
            invariant
                i <= needs.len(),
                nv == needs_view(needs@),
                strings_view(queue@) == donor_queue(self@.fetched, self@.pool, nv.take(i as int)),
            decreases needs.len() - i,
        {
            let n = &needs[i];
            assert(nv.take(i + 1).drop_last() =~= nv.take(i as int));
            assert(nv.take(i + 1).last() == need_view(needs@[i as int]));
            if !n.reused {
                let donor = match self.pool_candidate_for(n.soname.as_str()) {
                    Some(c) => Some(c),
                    None => {
                        let online = match &n.online {
                            Some(p) => Some(p.clone()),
                            None => None,
                        };
                        self.accept_online(online)
                    },
                };
                match donor {
                    Some(p) => {
                        self.queue_package(&mut queue, p);
                    },
                    None => {},
                }
            }
            i = i + 1;
        }
        assert(nv.take(i as int) =~= nv);
        if queue.len() == 0 {
            return self.fallback_packages();
        }
        queue
    }

    /// Records a package fetched this round (see [`fetch_step`]): `deps` holds
    /// its dependencies when it was unpacked, and is `None` when resolving,
    /// downloading or unpacking it failed.
    pub fn complete_fetch(&mut self, pkg: String, deps: Option<Vec<String>>)
        ensures
            final(self)@ == fetch_step(old(self)@, pkg@, match deps {
                Some(d) => Some(strings_view(d@)),
                None => None,
            }),
            final(self).iteration == old(self).iteration,
    {
        self.mark_fetched(pkg.as_str());
        match deps {
            Some(d) => {
                self.record_scavenged(pkg, &d);
            },
            None => {},
        }
    }
}

} // verus!
