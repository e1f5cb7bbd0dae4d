//! The scout radar: search URLs of the hunting grounds and the results they give.

use vstd::prelude::*;
use crate::config::opt_view;
use crate::text::{append_str, chars_of, eq_str, string_of};

verus! {

/// One package found on a hunting ground.
#[derive(Debug, Clone)]
pub struct HuntResult {
    pub origin: String,
    pub package: String,
    pub version: String,
    pub description: String,
}

/// The plain contents of a [`HuntResult`].
#[verifier::ext_equal]
pub struct HuntV {
    pub origin: Seq<char>,
    pub package: Seq<char>,
    pub version: Seq<char>,
    pub description: Seq<char>,
}

impl View for HuntResult {
    type V = HuntV;

    open spec fn view(&self) -> HuntV {
        HuntV {
            origin: self.origin@,
            package: self.package@,
            version: self.version@,
            description: self.description@,
        }
    }
}

pub open spec fn hunts_view(v: Seq<HuntResult>) -> Seq<HuntV> {
    v.map_values(|h: HuntResult| h@)
}

/// A package of the Debian source search.
#[derive(Debug, Clone)]
pub struct DebianSearchItem {
    pub package: String,
    pub version: Option<String>,
}

/// The results of the Debian source search.
#[derive(Debug, Clone)]
pub struct DebianSearchResults {
    pub exact: Option<DebianSearchItem>,
    pub other: Option<Vec<DebianSearchItem>>,
}

/// A package of the AUR search.
#[derive(Debug, Clone)]
pub struct AurSearchItem {
    pub name: String,
    pub version: String,
    pub description: Option<String>,
}

/// A package of the Arch repository search.
#[derive(Debug, Clone)]
pub struct ArchSearchItem {
    pub pkgname: String,
    pub pkgver: String,
    pub pkgrel: String,
    pub pkgdesc: Option<String>,
}

/// The most results taken from each list a ground returns.
pub const MAX_HUNT_RESULTS: usize = 8;

pub open spec fn or_text(o: Option<String>, d: Seq<char>) -> Seq<char> {
    match o {
        Some(s) => s@,
        None => d,
    }
}

pub open spec fn debian_other(items: Seq<DebianSearchItem>) -> Seq<HuntV>
    decreases items.len(),
{
    if items.len() == 0 {
        seq![]
    } else {
        debian_other(items.drop_last()).push(
            HuntV {
                origin: "deb"@,
                package: items.last().package@,
                version: or_text(items.last().version, "pool"@),
                description: "Debian pool package"@,
            },
        )
    }
}

/// The Debian results: the exact match (version `sid` when none is given), then
/// at most eight other packages (version `pool` when none is given).
pub open spec fn spec_debian_results(r: Option<DebianSearchResults>) -> Seq<HuntV> {
    match r {
        Some(res) => (match res.exact {
            Some(e) => seq![
                HuntV {
                    origin: "deb"@,
                    package: e.package@,
                    version: or_text(e.version, "sid"@),
                    description: "Debian upstream match"@,
                },
            ],
            None => seq![],
        }) + match res.other {
            Some(o) => debian_other(o@.take(if o@.len() < 8 { o@.len() as int } else { 8 })),
            None => seq![],
        },
        None => seq![],
    }
}

pub open spec fn aur_list(items: Seq<AurSearchItem>) -> Seq<HuntV>
    decreases items.len(),
{
    if items.len() == 0 {
        seq![]
    } else {
        aur_list(items.drop_last()).push(
            HuntV {
                origin: "aur"@,
                package: items.last().name@,
                version: items.last().version@,
                description: or_text(items.last().description, ""@),
            },
        )
    }
}

pub open spec fn arch_list(items: Seq<ArchSearchItem>) -> Seq<HuntV>
    decreases items.len(),
{
    if items.len() == 0 {
        seq![]
    } else {
        arch_list(items.drop_last()).push(
            HuntV {
                origin: "arch"@,
                package: items.last().pkgname@,
                version: items.last().pkgver@ + "-"@ + items.last().pkgrel@,
                description: or_text(items.last().pkgdesc, ""@),
            },
        )
    }
}

/// The first eight items of a list.
pub open spec fn first8<T>(s: Seq<T>) -> Seq<T> {
    s.take(if s.len() < 8 { s.len() as int } else { 8 })
}

fn text_or(o: &Option<String>, d: &str) -> (s: String)
    ensures
        s@ == or_text(*o, d@),
{
    match o {
        Some(s) => s.clone(),
        None => d.to_owned(),
    }
}

fn push_hunt(v: &mut Vec<HuntResult>, h: HuntResult)
    ensures
        hunts_view(final(v)@) == hunts_view(old(v)@).push(h@),
{
    let ghost b = hunts_view(v@);
    let ghost hv = h@;
    v.push(h);
    assert(hunts_view(v@) == b.push(hv));
}

pub struct Hunter;

impl Hunter {
    /// The results of a Debian search answer (`None` when it had none).
    pub fn debian_results(results: &Option<DebianSearchResults>) -> (r: Vec<HuntResult>)
        ensures
            hunts_view(r@) == spec_debian_results(*results),
    {
        let mut out: Vec<HuntResult> = Vec::new();
        match results {
            Some(res) => {
                match &res.exact {
                    Some(e) => {
                        push_hunt(
                            &mut out,
                            HuntResult {
                                origin: "deb".to_owned(),
                                package: e.package.clone(),
                                version: text_or(&e.version, "sid"),
                                description: "Debian upstream match".to_owned(),
                            },
                        );
                    },
                    None => {},
                }
                let ghost head = hunts_view(out@);
                match &res.other {
                    Some(o) => {
                        let n: usize = if o.len() < 8 { o.len() } else { 8 };
                        let mut i: usize = 0;
                        assert(o@.take(0) =~= Seq::<DebianSearchItem>::empty());
                        while i < n
                            invariant
                                i <= n,
                                n <= o.len(),
                                hunts_view(out@) == head + debian_other(o@.take(i as int)),
                            decreases n - i,
                        {
                            assert(o@.take(i + 1).drop_last() == o@.take(i as int));
                            assert(o@.take(i + 1).last() == o@[i as int]);
                            push_hunt(
                                &mut out,
                                HuntResult {
                                    origin: "deb".to_owned(),
                                    package: o[i].package.clone(),
                                    version: text_or(&o[i].version, "pool"),
                                    description: "Debian pool package".to_owned(),
                                },
                            );
                            i = i + 1;
                        }
                    },
                    None => {
                        assert(hunts_view(out@) == head + Seq::<HuntV>::empty());
                    },
                }
            },
            None => {},
        }
        out
    }

    /// The results of an AUR search answer: at most eight.
    pub fn aur_results(items: &Option<Vec<AurSearchItem>>) -> (r: Vec<HuntResult>)
        ensures
            hunts_view(r@) == match items {
                Some(v) => aur_list(first8(v@)),
                None => seq![],
            },
    {
        let mut out: Vec<HuntResult> = Vec::new();
        match items {
            Some(v) => {
                let n: usize = if v.len() < 8 { v.len() } else { 8 };
                let mut i: usize = 0;
                assert(v@.take(0) =~= Seq::<AurSearchItem>::empty());
                while i < n
                    invariant
                        i <= n,
                        n <= v.len(),
                        hunts_view(out@) == aur_list(v@.take(i as int)),
                    decreases n - i,
                {
                    assert(v@.take(i + 1).drop_last() == v@.take(i as int));
                    assert(v@.take(i + 1).last() == v@[i as int]);
                    push_hunt(
                        &mut out,
                        HuntResult {
                            origin: "aur".to_owned(),
                            package: v[i].name.clone(),
                            version: v[i].version.clone(),
                            description: text_or(&v[i].description, ""),
                        },
                    );
                    i = i + 1;
                }
            },
            None => {},
        }
        out
    }

    /// The results of an Arch search answer: at most eight, versioned `pkgver-pkgrel`.
    pub fn arch_results(items: &Option<Vec<ArchSearchItem>>) -> (r: Vec<HuntResult>)
        ensures
            hunts_view(r@) == match items {
                Some(v) => arch_list(first8(v@)),
                None => seq![],
            },
    {
        let mut out: Vec<HuntResult> = Vec::new();
        match items {
            Some(v) => {
                let n: usize = if v.len() < 8 { v.len() } else { 8 };
                let mut i: usize = 0;
                assert(v@.take(0) =~= Seq::<ArchSearchItem>::empty());
                while i < n
                    invariant
                        i <= n,
                        n <= v.len(),
                        hunts_view(out@) == arch_list(v@.take(i as int)),
                    decreases n - i,
                {
                    assert(v@.take(i + 1).drop_last() == v@.take(i as int));
                    assert(v@.take(i + 1).last() == v@[i as int]);
                    let mut ver = chars_of(v[i].pkgver.as_str());
                    append_str(&mut ver, "-");
                    append_str(&mut ver, v[i].pkgrel.as_str());
                    push_hunt(
                        &mut out,
                        HuntResult {
                            origin: "arch".to_owned(),
                            package: v[i].pkgname.clone(),
                            version: string_of(&ver),
                            description: text_or(&v[i].pkgdesc, ""),
                        },
                    );
                    i = i + 1;
                }
            },
            None => {},
        }
        out
    }

    /// The Debian source search URL.
    pub fn debian_search_url(query: &str) -> (u: String)
        ensures
            u@ == "https://sources.debian.org/api/search/"@ + query@ + "/"@,
    {
        let mut v = chars_of("https://sources.debian.org/api/search/");
        append_str(&mut v, query);
        append_str(&mut v, "/");
        string_of(&v)
    }

    /// The AUR search URL.
    pub fn aur_search_url(query: &str) -> (u: String)
        ensures
            u@ == "https://aur.archlinux.org/rpc/v5/search/"@ + query@,
    {
        let mut v = chars_of("https://aur.archlinux.org/rpc/v5/search/");
        append_str(&mut v, query);
        string_of(&v)
    }

    /// The Arch repository search URL.
    pub fn arch_search_url(query: &str) -> (u: String)
        ensures
            u@ == "https://archlinux.org/packages/search/json/?q="@ + query@,
    {
        let mut v = chars_of("https://archlinux.org/packages/search/json/?q=");
        append_str(&mut v, query);
        string_of(&v)
    }
}

/// A hunting ground.
#[derive(Debug, Clone, Copy, PartialEq, Eq, Structural)]
pub enum Ground {
    Debian,
    Aur,
    Arch,
}

/// The grounds searched for a filter, in the order their results are listed:
/// the one asked for, or Debian, Arch and the AUR.
pub open spec fn spec_grounds(filter: Option<Seq<char>>) -> Seq<Ground> {
    match filter {
        Some(f) => if f == "deb"@ {
            seq![Ground::Debian]
        } else if f == "aur"@ {
            seq![Ground::Aur]
        } else if f == "arch"@ {
            seq![Ground::Arch]
        } else {
            seq![Ground::Debian, Ground::Arch, Ground::Aur]
        },
        None => seq![Ground::Debian, Ground::Arch, Ground::Aur],
    }
}

/// The grounds to search for the ecosystem filter, in listing order.
pub fn grounds_for(filter: Option<&str>) -> (g: Vec<Ground>)
    ensures
        g@ == spec_grounds(match filter {
            Some(f) => Some(f@),
            None => None,
        }),
{
    let mut g: Vec<Ground> = Vec::new();
    match filter {
        Some(f) => {
            let fv = chars_of(f);
            if eq_str(&fv, "deb") {
                g.push(Ground::Debian);
            } else if eq_str(&fv, "aur") {
                g.push(Ground::Aur);
            } else if eq_str(&fv, "arch") {
                g.push(Ground::Arch);
            } else {
                g.push(Ground::Debian);
                g.push(Ground::Arch);
                g.push(Ground::Aur);
            }
        },
        None => {
            g.push(Ground::Debian);
            g.push(Ground::Arch);
            g.push(Ground::Aur);
        },
    }
    assert(g@ =~= spec_grounds(match filter {
        Some(f) => Some(f@),
        None => None,
    }));
    g
}

} // verus!
