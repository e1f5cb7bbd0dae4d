//! The assimilation engine's front door: command-line normalisation and the
//! choice of how a target is ingested.

use vstd::prelude::*;
use crate::config::strings_view;
use crate::text::{
    append, chars_of, contains, contains_str, decimal, decimal_chars, ends_with, ends_with_str,
    eq_str, lowercase, starts_with, starts_with_str, string_of, to_lowercase_chars,
};

verus! {

/// A detached ecosystem prefix such as `deb:`.
pub open spec fn is_prefix_tag(l: Seq<char>) -> bool {
    l == "deb:"@ || l == "git:"@ || l == "aur:"@ || l == "rpm:"@ || l == "arch:"@
}

/// A word that starts with an ecosystem prefix.
pub open spec fn has_prefix_tag(l: Seq<char>) -> bool {
    starts_with(l, "deb:"@) || starts_with(l, "git:"@) || starts_with(l, "aur:"@) || starts_with(
        l,
        "rpm:"@,
    ) || starts_with(l, "arch:"@)
}

/// The arguments with ecosystem prefixes lowercased, and a detached prefix
/// (`Deb: mpv`) joined to the word after it.
pub open spec fn normalize_from(args: Seq<Seq<char>>) -> Seq<Seq<char>>
    decreases args.len(),
{
    if args.len() == 0 {
        seq![]
    } else {
        let l = lowercase(args[0]);
        if is_prefix_tag(l) && args.len() >= 2 {
            seq![l + args[1]] + normalize_from(args.skip(2))
        } else if has_prefix_tag(l) {
            seq![l] + normalize_from(args.drop_first())
        } else {
            seq![args[0]] + normalize_from(args.drop_first())
        }
    }
}

fn is_tag(l: &[char]) -> (b: bool)
    ensures
        b == is_prefix_tag(l@),
{
    eq_str(l, "deb:") || eq_str(l, "git:") || eq_str(l, "aur:") || eq_str(l, "rpm:") || eq_str(l, "arch:")
}

fn has_tag(l: &[char]) -> (b: bool)
    ensures
        b == has_prefix_tag(l@),
{
    starts_with_str(l, "deb:") || starts_with_str(l, "git:") || starts_with_str(l, "aur:")
        || starts_with_str(l, "rpm:") || starts_with_str(l, "arch:")
}

/// Normalises the command line: ecosystem prefixes are lowercased, and a
/// detached prefix is joined to the next argument.
pub fn normalize_args(raw_args: &[String]) -> (r: Vec<String>)
    ensures
        strings_view(r@) == normalize_from(strings_view(raw_args@)),
{
    let ghost av = strings_view(raw_args@);
    let mut r: Vec<String> = Vec::new();
    let mut i: usize = 0;
    assert(av.skip(0) == av);
    while i < raw_args.len()
        invariant
            i <= raw_args.len(),
            av == strings_view(raw_args@),
            strings_view(r@) + normalize_from(av.skip(i as int)) == normalize_from(av),
        decreases raw_args.len() - i,
    {
        let ghost rest = av.skip(i as int);
        assert(rest[0] == raw_args@[i as int]@);
        let arg = chars_of(raw_args[i].as_str());
        let lower = to_lowercase_chars(&arg);
        let ghost before = strings_view(r@);
        if is_tag(&lower) && i + 1 < raw_args.len() {
            let mut joined = lower;
            append(&mut joined, &chars_of(raw_args[i + 1].as_str()));
            assert(rest[1] == raw_args@[i + 1]@);
            assert(rest.skip(2) == av.skip(i + 2));
            r.push(string_of(&joined));
            assert(strings_view(r@) == before.push(joined@));
            assert(strings_view(r@) + normalize_from(av.skip(i + 2)) =~= before + normalize_from(rest));
            i = i + 2;
        } else {
            assert(rest.drop_first() == av.skip(i + 1));
            if has_tag(&lower) {
                r.push(string_of(&lower));
                assert(strings_view(r@) == before.push(lower@));
            } else {
                r.push(raw_args[i].clone());
                assert(strings_view(r@) == before.push(raw_args@[i as int]@));
            }
            assert(strings_view(r@) + normalize_from(av.skip(i + 1)) =~= before + normalize_from(rest));
            i = i + 1;
        }
    }
    assert(av.skip(i as int).len() == 0);
    assert(strings_view(r@) + Seq::<Seq<char>>::empty() == strings_view(r@));
    r
}

/// How a target is ingested.
#[derive(Debug, Clone, Copy, PartialEq, Eq, Structural)]
pub enum PreyVector {
    /// A Debian package, local or fetched from the mirrors.
    Deb,
    /// A Git repository forged from source.
    Git,
    /// Anything else: looked up on the Debian mirrors.
    Mirror,
}

/// The ingestion vector of a target: Debian when it is a `.deb`, has the `deb:`
/// prefix or the ecosystem `deb` was asked for; else Git when it has the `git:`
/// prefix, names GitHub, ends in `.git` or the ecosystem `git` was asked for.
pub open spec fn spec_prey_vector(target: Seq<char>, explicit: Option<Seq<char>>) -> PreyVector {
    if ends_with(target, ".deb"@) || starts_with(target, "deb:"@) || explicit == Some("deb"@) {
        PreyVector::Deb
    } else if starts_with(target, "git:"@) || contains(target, "github.com"@) || ends_with(
        target,
        ".git"@,
    ) || explicit == Some("git"@) {
        PreyVector::Git
    } else {
        PreyVector::Mirror
    }
}

/// How `target` is ingested, given the ecosystem asked for on the command line.
pub fn classify_prey(target: &str, explicit_source: Option<&str>) -> (v: PreyVector)
    ensures
        v == spec_prey_vector(target@, match explicit_source {
            Some(e) => Some(e@),
            None => None,
        }),
{
    let t = chars_of(target);
    let (ex_deb, ex_git) = match explicit_source {
        Some(e) => {
            let ev = chars_of(e);
            (eq_str(&ev, "deb"), eq_str(&ev, "git"))
        },
        None => (false, false),
    };
    if ends_with_str(&t, ".deb") || starts_with_str(&t, "deb:") || ex_deb {
        PreyVector::Deb
    } else if starts_with_str(&t, "git:") || contains_str(&t, "github.com") || ends_with_str(&t, ".git")
        || ex_git {
        PreyVector::Git
    } else {
        PreyVector::Mirror
    }
}

/// `s` without any number of leading copies of `p` (`str::trim_start_matches`).
pub open spec fn trim_start_matches(s: Seq<char>, p: Seq<char>) -> Seq<char>
    decreases s.len(),
{
    if p.len() > 0 && starts_with(s, p) {
        trim_start_matches(s.skip(p.len() as int), p)
    } else {
        s
    }
}

/// The target without its ecosystem prefix (every leading copy of it).
pub fn strip_prey_prefix(target: &str, prefix: &str) -> (r: String)
    ensures
        r@ == trim_start_matches(target@, prefix@),
{
    let p = chars_of(prefix);
    let mut t = chars_of(target);
    if p.len() == 0 {
        return string_of(&t);
    }
    while crate::text::starts_with_chars(&t, &p)
        invariant
            p@ == prefix@,
            p.len() > 0,
            trim_start_matches(t@, prefix@) == trim_start_matches(target@, prefix@),
        decreases t.len(),
    {
        let n = p.len();
        t = crate::text::slice_chars(&t, n, t.len());
    }
    string_of(&t)
}

/// The scratch directory of an assimilation started at `millis` milliseconds
/// after the Unix epoch.
pub fn forge_dir_for(millis: u64) -> (d: String)
    ensures
        d@ == "/tmp/mimic-forge_"@ + decimal(millis as nat),
{
    let mut v = chars_of("/tmp/mimic-forge_");
    append(&mut v, &decimal_chars(millis));
    string_of(&v)
}

/// One entry of the shared organ bank: its size and how many abilities use it.
#[derive(Debug, Clone, Copy)]
pub struct OrganUsage {
    pub ref_count: u64,
    pub size_bytes: u64,
}

/// The bytes the organs take, and the bytes saved by sharing them.
pub open spec fn organ_totals(os: Seq<OrganUsage>) -> (int, int)
    decreases os.len(),
{
    if os.len() == 0 {
        (0, 0)
    } else {
        let (t, s) = organ_totals(os.drop_last());
        let o = os.last();
        (t + o.size_bytes, s + if o.ref_count > 1 { o.size_bytes * (o.ref_count - 1) } else { 0 })
    }
}

proof fn lemma_organ_totals_mono(os: Seq<OrganUsage>, i: int)
    requires
        0 <= i <= os.len(),
    ensures
        organ_totals(os.take(i)).0 <= organ_totals(os).0,
        organ_totals(os.take(i)).1 <= organ_totals(os).1,
        organ_totals(os.take(i)).0 >= 0,
        organ_totals(os.take(i)).1 >= 0,
    decreases os.len() - i,
{
    if i < os.len() {
        lemma_organ_totals_mono(os.drop_last(), i);
        assert(os.drop_last().take(i) == os.take(i));
        lemma_organ_totals_nonneg(os.drop_last());
        let o = os.last();
        if o.ref_count > 1 {
            assert(o.size_bytes * (o.ref_count - 1) >= 0) by (nonlinear_arith)
                requires
                    o.ref_count > 1,
            ;
        }
    } else {
        assert(os.take(i) == os);
        lemma_organ_totals_nonneg(os);
    }
}

proof fn lemma_organ_totals_nonneg(os: Seq<OrganUsage>)
    ensures
        organ_totals(os).0 >= 0,
        organ_totals(os).1 >= 0,
    decreases os.len(),
{
    if os.len() > 0 {
        lemma_organ_totals_nonneg(os.drop_last());
        let o = os.last();
        if o.ref_count > 1 {
            assert(o.size_bytes * (o.ref_count - 1) >= 0) by (nonlinear_arith)
                requires
                    o.ref_count > 1,
            ;
        }
    }
}

/// The total size of the organ bank and the bytes its sharing saves.
pub fn organ_bank_totals(organs: &[OrganUsage]) -> (r: (u64, u64))
    requires
        organ_totals(organs@).0 <= u64::MAX,
        organ_totals(organs@).1 <= u64::MAX,
    ensures
        r.0 == organ_totals(organs@).0,
        r.1 == organ_totals(organs@).1,
{
    let mut total: u64 = 0;
    let mut saved: u64 = 0;
    let mut i: usize = 0;
    assert(organs@.take(0) =~= Seq::<OrganUsage>::empty());
    while i < organs.len()
        invariant
            i <= organs.len(),
            organ_totals(organs@).0 <= u64::MAX,
            organ_totals(organs@).1 <= u64::MAX,
            total == organ_totals(organs@.take(i as int)).0,
            saved == organ_totals(organs@.take(i as int)).1,
        decreases organs.len() - i,
    {
        proof {
            lemma_organ_totals_mono(organs@, i + 1);
            assert(organs@.take(i + 1).drop_last() == organs@.take(i as int));
            assert(organs@.take(i + 1).last() == organs@[i as int]);
        }
        let o = organs[i];
        total = total + o.size_bytes;
        if o.ref_count > 1 {
            saved = saved + o.size_bytes * (o.ref_count - 1);
        }
        i = i + 1;
    }
    assert(organs@.take(i as int) == organs@);
    (total, saved)
}

} // verus!
