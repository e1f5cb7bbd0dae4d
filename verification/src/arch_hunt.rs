//! Hunting packages on the Arch Linux repositories: names, search answers,
//! download URLs and the `.PKGINFO` of a package.

use vstd::prelude::*;
use crate::config::{join_rel, join_rel_exec, path_parts, path_parts_of, strings_view};
use crate::deb_hunt::{
    entries_view, opt_bytes, tar_entries, tar_list, utf8_decode, utf8_decoded, zstd_decode, zstd_decoded,
};
use crate::micro_repo::{trim_end_matches, trim_end_matches_chars};
use crate::scavenger::{find_str, lemma_find_str_bounds, so_base};
use crate::text::{
    append, append_str, before_char, chars_of, ends_with, ends_with_chars, ends_with_str, eq_chars,
    eq_str, find_char_from, find_from, lemma_find_from_bounds, lines, lines_of, lowercase,
    slice_chars, split, split_chars, starts_with, starts_with_chars, starts_with_str, string_of,
    to_lowercase_chars, trim, trim_chars, vecs_view,
};

verus! {

/// The name of a dependency without its version constraint (`name>=1`, `name<2`,
/// `name=3`), trimmed.
pub open spec fn spec_clean_name(raw: Seq<char>) -> Seq<char> {
    trim(before_char(before_char(before_char(raw, '>'), '<'), '='))
}

fn before(v: &[char], c: char) -> (r: Vec<char>)
    ensures
        r@ == before_char(v@, c),
{
    let j = find_char_from(v, c, 0);
    proof {
        lemma_find_from_bounds(v@, c, 0);
    }
    slice_chars(v, 0, j)
}

fn clean_name_chars(v: &[char]) -> (r: Vec<char>)
    ensures
        r@ == spec_clean_name(v@),
{
    let a = before(v, '>');
    let b = before(&a, '<');
    let c = before(&b, '=');
    trim_chars(&c)
}

/// An Arch package name without its version constraint.
pub fn clean_package_name(raw_name: &str) -> (r: String)
    ensures
        r@ == spec_clean_name(raw_name@),
{
    string_of(&clean_name_chars(&chars_of(raw_name)))
}

/// One result of the Arch package search.
#[derive(Debug, Clone)]
pub struct ArchSearchResult {
    pub pkgname: String,
    pub pkgver: String,
    pub pkgrel: String,
    pub repo: String,
    pub arch: String,
    pub pkgdesc: Option<String>,
    pub filename: Option<String>,
}

/// The answer of the Arch package search.
#[derive(Debug, Clone)]
pub struct ArchSearchResponse {
    pub results: Vec<ArchSearchResult>,
}

/// A result that is the package itself, for this architecture.
pub open spec fn is_wanted_result(r: ArchSearchResult, name: Seq<char>) -> bool {
    r.pkgname@ == name && (r.arch@ == "x86_64"@ || r.arch@ == "any"@)
}

/// The download URL of a package on archlinux.org.
pub open spec fn spec_download_url(repo: Seq<char>, arch: Seq<char>, name: Seq<char>) -> Seq<char> {
    "https://archlinux.org/packages/"@ + repo + "/"@ + arch + "/"@ + name + "/download/"@
}

/// The exact-name search URL for a package.
pub fn search_by_name_url(pkg_name: &str) -> (u: String)
    ensures
        u@ == "https://archlinux.org/packages/search/json/?name="@ + pkg_name@,
{
    let mut v = chars_of("https://archlinux.org/packages/search/json/?name=");
    append_str(&mut v, pkg_name);
    string_of(&v)
}

/// The keyword search URL.
pub fn search_by_keyword_url(query: &str) -> (u: String)
    ensures
        u@ == "https://archlinux.org/packages/search/json/?q="@ + query@,
{
    let mut v = chars_of("https://archlinux.org/packages/search/json/?q=");
    append_str(&mut v, query);
    string_of(&v)
}

/// The download URL of a package on archlinux.org.
pub fn download_url(repo: &str, arch: &str, name: &str) -> (u: String)
    ensures
        u@ == spec_download_url(repo@, arch@, name@),
{
    let mut v = chars_of("https://archlinux.org/packages/");
    append_str(&mut v, repo);
    append_str(&mut v, "/");
    append_str(&mut v, arch);
    append_str(&mut v, "/");
    append_str(&mut v, name);
    append_str(&mut v, "/download/");
    string_of(&v)
}

/// The first search result that is the package itself for this architecture:
/// its download URL and its version `pkgver-pkgrel`.
pub fn pick_search_result(results: &[ArchSearchResult], pkg_name: &str) -> (r: Option<(String, String)>)
    ensures
        match r {
            Some((url, ver)) => exists|i: int|
                0 <= i < results@.len() && is_wanted_result(#[trigger] results@[i], pkg_name@)
                    && (forall|j: int| 0 <= j < i ==> !is_wanted_result(#[trigger] results@[j], pkg_name@))
                    && url@ == spec_download_url(results@[i].repo@, results@[i].arch@, results@[i].pkgname@)
                    && ver@ == results@[i].pkgver@ + "-"@ + results@[i].pkgrel@,
            None => forall|j: int| 0 <= j < results@.len() ==> !is_wanted_result(#[trigger] results@[j], pkg_name@),
        },
{
    let name = chars_of(pkg_name);
    let mut i: usize = 0;
    while i < results.len()
        invariant
            i <= results.len(),
            name@ == pkg_name@,
            forall|j: int| 0 <= j < i ==> !is_wanted_result(#[trigger] results@[j], pkg_name@),
        decreases results.len() - i,
    {
        let r = &results[i];
        let a = chars_of(r.arch.as_str());
        if eq_chars(&chars_of(r.pkgname.as_str()), &name) && (eq_str(&a, "x86_64") || eq_str(&a, "any")) {
            let url = download_url(r.repo.as_str(), r.arch.as_str(), r.pkgname.as_str());
            let mut ver = chars_of(r.pkgver.as_str());
            append_str(&mut ver, "-");
            append_str(&mut ver, r.pkgrel.as_str());
            assert(is_wanted_result(results@[i as int], pkg_name@));
            return Some((url, string_of(&ver)));
        }
        i = i + 1;
    }
    None
}

/// The repositories tried, in order, when the search finds nothing.
pub fn fallback_repositories() -> (r: [&'static str; 3])
    ensures
        r@.map_values(|s: &str| s@) == seq!["extra"@, "core"@, "multilib"@],
{
    let r: [&'static str; 3] = ["extra", "core", "multilib"];
    assert(r@.map_values(|s: &str| s@) =~= seq!["extra"@, "core"@, "multilib"@]);
    r
}

// ----------------------------------------------------------------------------
// Which package ships a library
// ----------------------------------------------------------------------------

/// The package names tried, in order, for a shared library: KDE Frameworks 6 and
/// Qt 6 names, the name without `lib` up to its first `-`, the name without
/// `lib`, then the library name itself (names taken lowercased, before `.so`).
pub open spec fn spec_soname_candidates(soname: Seq<char>) -> Seq<Seq<char>> {
    let base = so_base(lowercase(soname));
    let kf: Seq<Seq<char>> = if starts_with(base, "libkf6"@) { seq!["k"@ + base.skip(6)] } else { seq![] };
    let qt: Seq<Seq<char>> = if starts_with(base, "libqt6"@) { seq!["qt6-"@ + base.skip(6)] } else { seq![] };
    let nolib: Seq<Seq<char>> = if starts_with(base, "lib"@) {
        seq![before_char(base.skip(3), '-'), base.skip(3)]
    } else {
        seq![]
    };
    kf + qt + nolib + seq![base]
}

/// The package names to try, in order, for a shared library.
pub fn soname_candidates(soname: &str) -> (r: Vec<String>)
    ensures
        strings_view(r@) == spec_soname_candidates(soname@),
{
    let sl = to_lowercase_chars(&chars_of(soname));
    let ghost base_s = so_base(sl@);
    let f0 = crate::scavenger::find_str_from(&sl, ".so", 0);
    proof {
        lemma_find_str_bounds(sl@, ".so"@, 0);
        reveal_strlit("libkf6");
        reveal_strlit("libqt6");
        reveal_strlit("lib");
    }
    let base = slice_chars(&sl, 0, f0);
    assert(base@ == base_s);
    let mut r: Vec<String> = Vec::new();
    let ghost s0 = strings_view(r@);
    if starts_with_str(&base, "libkf6") {
        let mut k = chars_of("k");
        append(&mut k, &slice_chars(&base, 6, base.len()));
        assert(base@.subrange(6, base@.len() as int) == base@.skip(6));
        r.push(string_of(&k));
    }
    let ghost s1 = strings_view(r@);
    if starts_with_str(&base, "libqt6") {
        let mut q = chars_of("qt6-");
        append(&mut q, &slice_chars(&base, 6, base.len()));
        assert(base@.subrange(6, base@.len() as int) == base@.skip(6));
        r.push(string_of(&q));
    }
    let ghost s2 = strings_view(r@);
    if starts_with_str(&base, "lib") {
        let nolib = slice_chars(&base, 3, base.len());
        assert(nolib@ == base@.skip(3));
        r.push(string_of(&before(&nolib, '-')));
        r.push(string_of(&nolib));
    }
    let ghost s3 = strings_view(r@);
    r.push(string_of(&base));
    proof {
        let kf: Seq<Seq<char>> = if starts_with(base_s, "libkf6"@) { seq!["k"@ + base_s.skip(6)] } else { seq![] };
        let qt: Seq<Seq<char>> = if starts_with(base_s, "libqt6"@) { seq!["qt6-"@ + base_s.skip(6)] } else { seq![] };
        let nl: Seq<Seq<char>> = if starts_with(base_s, "lib"@) {
            seq![before_char(base_s.skip(3), '-'), base_s.skip(3)]
        } else {
            seq![]
        };
        assert(s0 =~= Seq::<Seq<char>>::empty());
        assert(s1 =~= s0 + kf);
        assert(s2 =~= s1 + qt);
        assert(s3 =~= s2 + nl);
    }
    assert(strings_view(r@) =~= spec_soname_candidates(soname@));
    r
}

// ----------------------------------------------------------------------------
// Downloads
// ----------------------------------------------------------------------------

/// The last non-empty `/` part of a URL.
pub open spec fn last_nonempty_part(parts: Seq<Seq<char>>) -> Option<Seq<char>>
    decreases parts.len(),
{
    if parts.len() == 0 {
        None
    } else if parts.last().len() > 0 {
        Some(parts.last())
    } else {
        last_nonempty_part(parts.drop_last())
    }
}

/// The local file name of a download: the URL's last non-empty part (or
/// `default` when it has none), with `.pkg.tar.zst` added unless present.
pub open spec fn spec_download_name(url: Seq<char>, default: Seq<char>) -> Seq<char> {
    let f = match last_nonempty_part(split(url, '/')) {
        Some(p) => p,
        None => default,
    };
    if ends_with(f, ".pkg.tar.zst"@) { f } else { f + ".pkg.tar.zst"@ }
}

/// The file name a download from `url` is saved under.
pub fn download_file_name(url: &str, default: &str) -> (n: String)
    ensures
        n@ == spec_download_name(url@, default@),
{
    let parts = split_chars(&chars_of(url), '/');
    let ghost pv = vecs_view(parts@);
    let mut k: usize = parts.len();
    assert(pv.take(k as int) == pv);
    while k > 0 && parts[k - 1].len() == 0
        invariant
            k <= parts.len(),
            pv == vecs_view(parts@),
            last_nonempty_part(pv) == last_nonempty_part(pv.take(k as int)),
        decreases k,
    {
        assert(pv.take(k as int).drop_last() == pv.take(k - 1));
        k = k - 1;
    }
    let f: Vec<char> = if k > 0 {
        assert(pv.take(k as int).last() == parts@[k - 1]@);
        let c = slice_chars(&parts[k - 1], 0, parts[k - 1].len());
        assert(parts@[k - 1]@.subrange(0, parts@[k - 1]@.len() as int) == parts@[k - 1]@);
        c
    } else {
        assert(pv.take(0).len() == 0);
        chars_of(default)
    };
    if ends_with_str(&f, ".pkg.tar.zst") {
        string_of(&f)
    } else {
        let mut g = f;
        append_str(&mut g, ".pkg.tar.zst");
        string_of(&g)
    }
}

// ----------------------------------------------------------------------------
// `.PKGINFO`
// ----------------------------------------------------------------------------

/// What an Arch package says of itself.
#[derive(Debug, Clone)]
pub struct ArchPackageInfo {
    pub name: String,
    pub version: String,
    pub architecture: String,
    pub description: String,
    pub dependencies: Vec<String>,
    pub extracted_dir: String,
}

/// The fields read from a `.PKGINFO`.
#[verifier::ext_equal]
pub struct PkgInfoV {
    pub name: Seq<char>,
    pub version: Seq<char>,
    pub architecture: Seq<char>,
    pub description: Seq<char>,
    pub dependencies: Seq<Seq<char>>,
}

/// One `.PKGINFO` line: `pkgname`, `pkgver`, `arch` and `pkgdesc` set their field
/// (the last one wins), each `depend` adds its name without version constraint.
pub open spec fn pkginfo_step(st: PkgInfoV, line: Seq<char>) -> PkgInfoV {
    let t = trim(line);
    if starts_with(t, "pkgname = "@) {
        PkgInfoV { name: trim(t.skip(10)), ..st }
    } else if starts_with(t, "pkgver = "@) {
        PkgInfoV { version: trim(t.skip(9)), ..st }
    } else if starts_with(t, "arch = "@) {
        PkgInfoV { architecture: trim(t.skip(7)), ..st }
    } else if starts_with(t, "pkgdesc = "@) {
        PkgInfoV { description: trim(t.skip(10)), ..st }
    } else if starts_with(t, "depend = "@) {
        let d = spec_clean_name(trim(t.skip(9)));
        if d.len() > 0 {
            PkgInfoV { dependencies: st.dependencies.push(d), ..st }
        } else {
            st
        }
    } else {
        st
    }
}

pub open spec fn pkginfo_scan(ls: Seq<Seq<char>>) -> PkgInfoV
    decreases ls.len(),
{
    if ls.len() == 0 {
        PkgInfoV {
            name: seq![],
            version: seq![],
            architecture: "x86_64"@,
            description: seq![],
            dependencies: seq![],
        }
    } else {
        pkginfo_step(pkginfo_scan(ls.drop_last()), ls.last())
    }
}

/// The name and version read from a package file name `name-version-...`
/// (after `.pkg.tar` is removed) when its `.PKGINFO` names none.
pub open spec fn spec_stem_name(stem: Seq<char>) -> (Seq<char>, Seq<char>) {
    let parts = split(trim_end_matches(stem, ".pkg.tar"@), '-');
    (parts[0], if parts.len() > 1 { parts[1] } else { "1.0.0"@ })
}

fn field_value(t: &[char], n: usize) -> (r: Vec<char>)
    requires
        n <= t.len(),
    ensures
        r@ == trim(t@.skip(n as int)),
{
    let rest = slice_chars(t, n, t.len());
    assert(rest@ == t@.skip(n as int));
    trim_chars(&rest)
}

/// Reads the fields of a `.PKGINFO` file (its text).
pub fn parse_pkginfo(content: &str) -> (r: (String, String, String, String, Vec<String>))
    ensures
        ({
            let v = pkginfo_scan(lines(content@));
            &&& r.0@ == v.name
            &&& r.1@ == v.version
            &&& r.2@ == v.architecture
            &&& r.3@ == v.description
            &&& strings_view(r.4@) == v.dependencies
        }),
{
    let ls = lines_of(&chars_of(content));
    let ghost sl = lines(content@);
    let mut name: Vec<char> = Vec::new();
    let mut version: Vec<char> = Vec::new();
    let mut arch = chars_of("x86_64");
    let mut desc: Vec<char> = Vec::new();
    let mut deps: Vec<String> = Vec::new();
    let mut i: usize = 0;
    assert(sl.take(0) =~= Seq::<Seq<char>>::empty());
    while i < ls.len()
        invariant
            i <= ls.len(),
            sl == vecs_view(ls@),
            sl == lines(content@),
            (PkgInfoV {
                name: name@,
                version: version@,
                architecture: arch@,
                description: desc@,
                dependencies: strings_view(deps@),
            }) == pkginfo_scan(sl.take(i as int)),
        decreases ls.len() - i,
    {
        assert(sl.take(i + 1).drop_last() == sl.take(i as int));
        assert(sl.take(i + 1).last() == ls@[i as int]@);
        proof {
            reveal_strlit("pkgname = ");
            reveal_strlit("pkgver = ");
            reveal_strlit("arch = ");
            reveal_strlit("pkgdesc = ");
            reveal_strlit("depend = ");
        }
        let t = trim_chars(&ls[i]);
        if starts_with_str(&t, "pkgname = ") {
            name = field_value(&t, 10);
        } else if starts_with_str(&t, "pkgver = ") {
            version = field_value(&t, 9);
        } else if starts_with_str(&t, "arch = ") {
            arch = field_value(&t, 7);
        } else if starts_with_str(&t, "pkgdesc = ") {
            desc = field_value(&t, 10);
        } else if starts_with_str(&t, "depend = ") {
            let d = clean_name_chars(&field_value(&t, 9));
            if d.len() > 0 {
                let ghost b = strings_view(deps@);
                deps.push(string_of(&d));
                assert(strings_view(deps@) == b.push(d@));
            }
        }
        i = i + 1;
    }
    assert(sl.take(i as int) == sl);
    (string_of(&name), string_of(&version), string_of(&arch), string_of(&desc), deps)
}

/// The name and version read from a package file's stem.
pub fn name_from_stem(stem: &str) -> (r: (String, String))
    ensures
        (r.0@, r.1@) == spec_stem_name(stem@),
{
    let clean = trim_end_matches_chars(&chars_of(stem), ".pkg.tar");
    let parts = split_chars(&clean, '-');
    let ghost pv = vecs_view(parts@);
    proof {
        crate::text::lemma_find_from_bounds(clean@, '-', 0);
    }
    assert(pv.len() > 0);
    assert(pv[0] == parts@[0]@);
    let n = slice_chars(&parts[0], 0, parts[0].len());
    assert(parts@[0]@.subrange(0, parts@[0]@.len() as int) == parts@[0]@);
    let v: Vec<char> = if parts.len() > 1 {
        assert(pv[1] == parts@[1]@);
        let c = slice_chars(&parts[1], 0, parts[1].len());
        assert(parts@[1]@.subrange(0, parts@[1]@.len() as int) == parts@[1]@);
        c
    } else {
        chars_of("1.0.0")
    };
    (string_of(&n), string_of(&v))
}

/// The extraction directory of a package unpacked under `destination`.
pub fn raw_extract_dir(destination: &str) -> (d: String)
    ensures
        d@ == join_rel(destination@, "raw"@),
{
    join_rel_exec(destination, "raw")
}

// ----------------------------------------------------------------------------
// Package files
// ----------------------------------------------------------------------------

/// The tar archive inside an Arch package file (`.pkg.tar.zst`): its bytes
/// decompressed with Zstandard; `None` when they are not Zstandard data.
pub fn arch_pkg_tar(pkg: &[u8]) -> (r: Option<Vec<u8>>)
    ensures
        opt_bytes(r) == zstd_decoded(pkg@),
{
    zstd_decode(pkg)
}

/// A tar entry that unpacks to `.PKGINFO` at the top of the extraction directory.
pub open spec fn is_pkginfo_path(p: Seq<char>) -> bool {
    path_parts(p) == seq![".PKGINFO"@]
}

/// The contents of the last `.PKGINFO` entry (the one left on disk after
/// unpacking), if any.
pub open spec fn last_pkginfo(es: Seq<(Seq<char>, Seq<u8>)>) -> Option<Seq<u8>>
    decreases es.len(),
{
    if es.len() == 0 {
        None
    } else if is_pkginfo_path(es.last().0) {
        Some(es.last().1)
    } else {
        last_pkginfo(es.drop_last())
    }
}

/// What a package file says of itself, from the entries of its tar: the fields
/// of its `.PKGINFO` when that is UTF-8 text (the defaults otherwise), and the
/// name and version from the file's stem when no name was found.
pub open spec fn info_from_entries(es: Seq<(Seq<char>, Seq<u8>)>, stem: Seq<char>) -> PkgInfoV {
    let text = match last_pkginfo(es) {
        Some(b) => utf8_decoded(b),
        None => None,
    };
    let v = match text {
        Some(c) => pkginfo_scan(lines(c)),
        None => pkginfo_scan(seq![]),
    };
    if v.name.len() == 0 {
        PkgInfoV { name: spec_stem_name(stem).0, version: spec_stem_name(stem).1, ..v }
    } else {
        v
    }
}

/// What an Arch package file (its bytes) says of itself (see
/// [`info_from_entries`]); `None` when it is not a Zstandard-compressed tar.
pub open spec fn spec_arch_pkg_info(pkg: Seq<u8>, stem: Seq<char>) -> Option<PkgInfoV> {
    match zstd_decoded(pkg) {
        Some(t) => match tar_entries(t) {
            Some(es) => Some(info_from_entries(es, stem)),
            None => None,
        },
        None => None,
    }
}

pub open spec fn info_view(r: (String, String, String, String, Vec<String>)) -> PkgInfoV {
    PkgInfoV {
        name: r.0@,
        version: r.1@,
        architecture: r.2@,
        description: r.3@,
        dependencies: strings_view(r.4@),
    }
}

fn is_pkginfo_entry(p: &str) -> (b: bool)
    ensures
        b == is_pkginfo_path(p@),
{
    let parts = path_parts_of(&chars_of(p));
    proof {
        reveal_strlit(".PKGINFO");
    }
    if parts.len() == 1 && eq_str(&parts[0], ".PKGINFO") {
        assert(vecs_view(parts@) =~= seq![".PKGINFO"@]);
        true
    } else {
        assert(vecs_view(parts@).len() == parts.len());
        if parts.len() == 1 {
            assert(vecs_view(parts@)[0] == parts@[0]@);
        }
        false
    }
}

/// The `.PKGINFO` fields of a package from the entries of its tar (see
/// [`info_from_entries`]).
pub fn info_of_entries(es: &Vec<(String, Vec<u8>)>, stem: &str) -> (r: (String, String, String, String, Vec<String>))
    ensures
        info_view(r) == info_from_entries(entries_view(es@), stem@),
{
    let ghost ev = entries_view(es@);
    let mut k: usize = es.len();
    assert(ev.take(ev.len() as int) =~= ev);
    while k > 0 && !is_pkginfo_entry(es[k - 1].0.as_str())
        invariant
            k <= es.len(),
            ev == entries_view(es@),
            last_pkginfo(ev) == last_pkginfo(ev.take(k as int)),
        decreases k,
    {
        assert(ev.take(k as int).last() == ev[k - 1]);
        assert(ev.take(k as int).drop_last() =~= ev.take(k - 1));
        k = k - 1;
    }
    assert(ev.take(ev.len() as int) =~= ev);
    let text: Option<String> = if k > 0 {
        assert(ev.take(k as int).last() == ev[k - 1]);
        utf8_decode(es[k - 1].1.as_slice())
    } else {
        assert(ev.take(0) =~= Seq::<(Seq<char>, Seq<u8>)>::empty());
        None
    };
    let r = match text {
        Some(c) => parse_pkginfo(c.as_str()),
        None => {
            let r0 = parse_pkginfo("");
            proof {
                reveal_strlit("");
                assert(lines(""@) =~= Seq::<Seq<char>>::empty());
            }
            r0
        },
    };
    if chars_of(r.0.as_str()).len() == 0 {
        let (n, v) = name_from_stem(stem);
        (n, v, r.2, r.3, r.4)
    } else {
        r
    }
}

/// What an Arch package file (its bytes) says of itself: its tar decompressed
/// and listed, its `.PKGINFO` read; `None` when it is not a
/// Zstandard-compressed tar.
pub fn arch_pkg_info(pkg: &[u8], stem: &str) -> (r: Option<(String, String, String, String, Vec<String>)>)
    ensures
        match r {
            Some(i) => spec_arch_pkg_info(pkg@, stem@) == Some(info_view(i)),
            None => spec_arch_pkg_info(pkg@, stem@).is_none(),
        },
{
    let tar = match zstd_decode(pkg) {
        Some(t) => t,
        None => {
            return None;
        },
    };
    let es = match tar_list(&tar) {
        Some(e) => e,
        None => {
            return None;
        },
    };
    Some(info_of_entries(&es, stem))
}

} // verus!
