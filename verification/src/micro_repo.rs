//! Micro-repositories: packages published as assets of a GitHub release.

use vstd::prelude::*;
use crate::text::{
    chars_of, concat, ends_with, ends_with_chars, ends_with_str, eq_chars, rfind, rfind_char,
    slice_chars, string_of,
};

verus! {

/// One downloadable file of a release.
#[derive(Debug, Clone)]
pub struct GitHubReleaseAsset {
    pub name: String,
    pub browser_download_url: String,
    pub size: u64,
}

/// The latest release of a repository.
#[derive(Debug, Clone)]
pub struct GitHubRelease {
    pub tag_name: String,
    pub name: Option<String>,
    pub assets: Vec<GitHubReleaseAsset>,
}

/// A package found in a micro-repository.
#[derive(Debug, Clone)]
pub struct MicroRepoPackage {
    pub repo_name: String,
    pub name: String,
    pub version: String,
    pub arch: String,
    pub download_url: String,
    pub size_bytes: u64,
}

/// The plain contents of a [`MicroRepoPackage`].
pub struct PackageV {
    pub repo_name: Seq<char>,
    pub name: Seq<char>,
    pub version: Seq<char>,
    pub arch: Seq<char>,
    pub download_url: Seq<char>,
    pub size_bytes: u64,
}

impl View for MicroRepoPackage {
    type V = PackageV;

    open spec fn view(&self) -> PackageV {
        PackageV {
            repo_name: self.repo_name@,
            name: self.name@,
            version: self.version@,
            arch: self.arch@,
            download_url: self.download_url@,
            size_bytes: self.size_bytes,
        }
    }
}

/// `str::trim_end_matches` with a text pattern: every trailing copy of `p` is removed.
pub open spec fn trim_end_matches(s: Seq<char>, p: Seq<char>) -> Seq<char>
    decreases s.len(),
{
    if p.len() > 0 && ends_with(s, p) {
        trim_end_matches(s.take(s.len() - p.len()), p)
    } else {
        s
    }
}

/// `(name, version, arch)` of a package file name `name-ver-rel-arch.pkg.tar.{zst,xz}`,
/// read from the right: the arch after the last `-`, the release before it, and the
/// version before that; a name with fewer than two `-` has none.
pub open spec fn spec_parse_pkg_filename(f: Seq<char>) -> Option<(Seq<char>, Seq<char>, Seq<char>)> {
    let clean = trim_end_matches(trim_end_matches(f, ".pkg.tar.zst"@), ".pkg.tar.xz"@);
    let a = rfind(clean, '-');
    if a < 0 {
        None
    } else {
        let head = clean.take(a);
        let arch = clean.skip(a + 1);
        let b = rfind(head, '-');
        if b < 0 {
            None
        } else {
            let rel = head.skip(b + 1);
            let name_and_ver = head.take(b);
            let c = rfind(name_and_ver, '-');
            if c < 0 {
                Some((name_and_ver, rel, arch))
            } else {
                Some((name_and_ver.take(c), name_and_ver.skip(c + 1) + "-"@ + rel, arch))
            }
        }
    }
}

/// The characters of `v` with every trailing copy of `p` removed.
pub fn trim_end_matches_chars(v: &[char], p: &str) -> (r: Vec<char>)
    ensures
        r@ == trim_end_matches(v@, p@),
{
    let pv = chars_of(p);
    let mut w = slice_chars(v, 0, v.len());
    assert(v@.subrange(0, v@.len() as int) == v@);
    if pv.len() == 0 {
        return w;
    }
    while ends_with_chars(&w, &pv)
        invariant
            pv@ == p@,
            pv.len() > 0,
            trim_end_matches(w@, p@) == trim_end_matches(v@, p@),
        decreases w.len(),
    {
        let n = w.len() - pv.len();
        w = slice_chars(&w, 0, n);
    }
    w
}

/// Splits a package file name into `(name, version, arch)`.
pub fn parse_pkg_filename(filename: &str) -> (r: Option<(String, String, String)>)
    ensures
        match r {
            Some((n, v, a)) => spec_parse_pkg_filename(filename@) == Some((n@, v@, a@)),
            None => spec_parse_pkg_filename(filename@).is_none(),
        },
{
    let f = chars_of(filename);
    let c1 = trim_end_matches_chars(&f, ".pkg.tar.zst");
    let clean = trim_end_matches_chars(&c1, ".pkg.tar.xz");
    let a = match rfind_char(&clean, '-') {
        Some(a) => a,
        None => {
            return None;
        },
    };
    let head = slice_chars(&clean, 0, a);
    let arch = slice_chars(&clean, a + 1, clean.len());
    assert(head@ == clean@.take(a as int));
    assert(arch@ == clean@.skip(a + 1));
    let b = match rfind_char(&head, '-') {
        Some(b) => b,
        None => {
            return None;
        },
    };
    let rel = slice_chars(&head, b + 1, head.len());
    let name_and_ver = slice_chars(&head, 0, b);
    assert(rel@ == head@.skip(b + 1));
    assert(name_and_ver@ == head@.take(b as int));
    match rfind_char(&name_and_ver, '-') {
        Some(c) => {
            let name = slice_chars(&name_and_ver, 0, c);
            let ver = slice_chars(&name_and_ver, c + 1, name_and_ver.len());
            assert(name@ == name_and_ver@.take(c as int));
            assert(ver@ == name_and_ver@.skip(c + 1));
            let mut dash: Vec<char> = Vec::new();
            dash.push('-');
            let vd = concat(&ver, &dash);
            let full = concat(&vd, &rel);
            proof {
                reveal_strlit("-");
                assert(dash@ == "-"@);
            }
            Some((string_of(&name), string_of(&full), string_of(&arch)))
        },
        None => Some((string_of(&name_and_ver), string_of(&rel), string_of(&arch))),
    }
}

/// The last `/`-separated part of `owner/repo`.
pub open spec fn repo_tag(owner_repo: Seq<char>) -> Seq<char> {
    let k = rfind(owner_repo, '/');
    if k < 0 {
        owner_repo
    } else {
        owner_repo.skip(k + 1)
    }
}

/// A release asset that is a package file.
pub open spec fn is_package_asset(name: Seq<char>) -> bool {
    ends_with(name, ".pkg.tar.zst"@) || ends_with(name, ".pkg.tar.xz"@)
}

/// The package an asset stands for, when its name is a package file name.
pub open spec fn asset_package(tag: Seq<char>, a: GitHubReleaseAsset) -> Option<PackageV> {
    if is_package_asset(a.name@) {
        match spec_parse_pkg_filename(a.name@) {
            Some((n, v, ar)) => Some(
                PackageV {
                    repo_name: tag,
                    name: n,
                    version: v,
                    arch: ar,
                    download_url: a.browser_download_url@,
                    size_bytes: a.size,
                },
            ),
            None => None,
        }
    } else {
        None
    }
}

/// The packages of the assets, in order.
pub open spec fn release_packages(tag: Seq<char>, assets: Seq<GitHubReleaseAsset>) -> Seq<PackageV>
    decreases assets.len(),
{
    if assets.len() == 0 {
        seq![]
    } else {
        let rest = release_packages(tag, assets.drop_last());
        match asset_package(tag, assets.last()) {
            Some(p) => rest.push(p),
            None => rest,
        }
    }
}

/// The views of a list of packages.
pub open spec fn packages_view(ps: Seq<MicroRepoPackage>) -> Seq<PackageV> {
    ps.map_values(|p: MicroRepoPackage| p@)
}

/// The packages of a release of `owner_repo`: its assets whose names are package
/// file names, in order, under the repository's last path part.
pub fn packages_from_release(owner_repo: &str, release: &GitHubRelease) -> (ps: Vec<MicroRepoPackage>)
    ensures
        packages_view(ps@) == release_packages(repo_tag(owner_repo@), release.assets@),
{
    let o = chars_of(owner_repo);
    let tag_chars = match rfind_char(&o, '/') {
        Some(k) => slice_chars(&o, k + 1, o.len()),
        None => slice_chars(&o, 0, o.len()),
    };
    assert(o@.subrange(0, o@.len() as int) == o@);
    let tag = string_of(&tag_chars);
    let ghost t = repo_tag(owner_repo@);
    assert(tag@ == t);
    let mut ps: Vec<MicroRepoPackage> = Vec::new();
    let mut i: usize = 0;
    while i < release.assets.len()
        invariant
            i <= release.assets.len(),
            tag@ == t,
            packages_view(ps@) == release_packages(t, release.assets@.take(i as int)),
        decreases release.assets.len() - i,
    {
        let asset = &release.assets[i];
        assert(release.assets@.take(i + 1).drop_last() == release.assets@.take(i as int));
        assert(release.assets@.take(i + 1).last() == *asset);
        let nm = chars_of(asset.name.as_str());
        if ends_with_str(&nm, ".pkg.tar.zst") || ends_with_str(&nm, ".pkg.tar.xz") {
            match parse_pkg_filename(asset.name.as_str()) {
                Some((name, version, arch)) => {
                    let p = MicroRepoPackage {
                        repo_name: tag.clone(),
                        name,
                        version,
                        arch,
                        download_url: asset.browser_download_url.clone(),
                        size_bytes: asset.size,
                    };
                    let ghost before = packages_view(ps@);
                    ps.push(p);
                    assert(packages_view(ps@) == before.push(p@));
                },
                None => {},
            }
        }
        i = i + 1;
    }
    assert(release.assets@.take(i as int) == release.assets@);
    ps
}

/// The first package named `target`.
pub fn find_in_packages(packages: &[MicroRepoPackage], target: &str) -> (r: Option<MicroRepoPackage>)
    ensures
        match r {
            Some(p) => exists|i: int|
                0 <= i < packages@.len() && packages@[i]@ == p@ && packages@[i].name@ == target@
                    && forall|j: int| 0 <= j < i ==> packages@[j].name@ != target@,
            None => forall|j: int| 0 <= j < packages@.len() ==> packages@[j].name@ != target@,
        },
{
    let t = chars_of(target);
    let mut i: usize = 0;
    while i < packages.len()
        invariant
            i <= packages.len(),
            t@ == target@,
            forall|j: int| 0 <= j < i ==> packages@[j].name@ != target@,
        decreases packages.len() - i,
    {
        let n = chars_of(packages[i].name.as_str());
        if eq_chars(&n, &t) {
            let p = MicroRepoPackage {
                repo_name: packages[i].repo_name.clone(),
                name: packages[i].name.clone(),
                version: packages[i].version.clone(),
                arch: packages[i].arch.clone(),
                download_url: packages[i].download_url.clone(),
                size_bytes: packages[i].size_bytes,
            };
            assert(packages@[i as int]@ == p@);
            return Some(p);
        }
        i = i + 1;
    }
    None
}

} // verus!
