//! The Arch User Repository: its RPC answers, URLs, snapshots and built packages.

use vstd::prelude::*;
use crate::config::{join_rel, join_rel_exec, strings_view};
use crate::text::{append_str, chars_of, ends_with, ends_with_str, string_of};
use crate::deb_hunt::{gz_decode, gz_decoded, opt_bytes};

verus! {

/// An answer of the AUR RPC interface.
#[derive(Debug, Clone)]
pub struct AurRpcResponse<T> {
    pub version: u32,
    pub resultcount: usize,
    pub response_type: String,
    pub results: Vec<T>,
    pub error: Option<String>,
}

impl<T> AurRpcResponse<T> {
    /// The first result, if any (what an `info` query is about).
    pub fn into_first(self) -> (r: Option<T>)
        ensures
            r == if self.results@.len() > 0 { Some(self.results@[0]) } else { None },
    {
        let mut results = self.results;
        if results.len() > 0 {
            Some(results.swap_remove(0))
        } else {
            None
        }
    }
}

/// The RPC search URL.
pub fn search_url(query: &str) -> (u: String)
    ensures
        u@ == "https://aur.archlinux.org/rpc/v5/search/"@ + query@,
{
    let mut v = chars_of("https://aur.archlinux.org/rpc/v5/search/");
    append_str(&mut v, query);
    string_of(&v)
}

/// The RPC information URL of one package.
pub fn info_url(pkg_name: &str) -> (u: String)
    ensures
        u@ == "https://aur.archlinux.org/rpc/v5/info/"@ + pkg_name@,
{
    let mut v = chars_of("https://aur.archlinux.org/rpc/v5/info/");
    append_str(&mut v, pkg_name);
    string_of(&v)
}

/// `arg[]=p` for each package, joined with `&`.
pub open spec fn info_args(ps: Seq<Seq<char>>) -> Seq<char>
    decreases ps.len(),
{
    if ps.len() == 0 {
        seq![]
    } else if ps.len() == 1 {
        "arg[]="@ + ps[0]
    } else {
        info_args(ps.drop_last()) + "&"@ + "arg[]="@ + ps.last()
    }
}

/// The RPC information URL of several packages in one query; `None` for none.
pub fn info_multi_url(pkgs: &[String]) -> (u: Option<String>)
    ensures
        match u {
            Some(s) => pkgs@.len() > 0 && s@ == "https://aur.archlinux.org/rpc/v5/info?"@ + info_args(
                strings_view(pkgs@),
            ),
            None => pkgs@.len() == 0,
        },
{
    if pkgs.len() == 0 {
        return None;
    }
    let ghost pv = strings_view(pkgs@);
    let mut q: Vec<char> = Vec::new();
    let mut i: usize = 0;
    assert(pv.take(0) =~= Seq::<Seq<char>>::empty());
    while i < pkgs.len()
        invariant
            i <= pkgs.len(),
            pv == strings_view(pkgs@),
            q@ == info_args(pv.take(i as int)),
        decreases pkgs.len() - i,
    {
        assert(pv.take(i + 1).drop_last() == pv.take(i as int));
        assert(pv.take(i + 1).last() == pkgs@[i as int]@);
        if i > 0 {
            q.push('&');
            proof {
                reveal_strlit("&");
            }
        }
        append_str(&mut q, "arg[]=");
        append_str(&mut q, pkgs[i].as_str());
        proof {
            if i == 0 {
                assert(pv.take(1) =~= seq![pv[0]]);
            }
        }
        i = i + 1;
    }
    assert(pv.take(i as int) == pv);
    let mut v = chars_of("https://aur.archlinux.org/rpc/v5/info?");
    crate::text::append(&mut v, &q);
    Some(string_of(&v))
}

/// The snapshot tarball of a package.
pub fn snapshot_url(pkg_name: &str) -> (u: String)
    ensures
        u@ == "https://aur.archlinux.org/cgit/aur.git/snapshot/"@ + pkg_name@ + ".tar.gz"@,
{
    let mut v = chars_of("https://aur.archlinux.org/cgit/aur.git/snapshot/");
    append_str(&mut v, pkg_name);
    append_str(&mut v, ".tar.gz");
    string_of(&v)
}

/// Where a snapshot's `PKGBUILD` is: in the package's own directory under the
/// destination, else at the destination itself; `None` when neither has one.
pub fn pkgbuild_dir(dest_dir: &str, pkg_name: &str, in_pkg_dir: bool, in_dest_dir: bool) -> (d: Option<String>)
    ensures
        match d {
            Some(p) => if in_pkg_dir {
                p@ == join_rel(dest_dir@, pkg_name@)
            } else {
                in_dest_dir && p@ == dest_dir@
            },
            None => !in_pkg_dir && !in_dest_dir,
        },
{
    if in_pkg_dir {
        Some(join_rel_exec(dest_dir, pkg_name))
    } else if in_dest_dir {
        Some(dest_dir.to_owned())
    } else {
        None
    }
}

/// The tar archive inside a downloaded AUR snapshot (`.tar.gz`): the bytes
/// gunzipped; `None` when they are not gzip data.
pub fn snapshot_tar(bytes: &[u8]) -> (r: Option<Vec<u8>>)
    ensures
        opt_bytes(r) == gz_decoded(bytes@),
{
    gz_decode(bytes)
}

/// The workspace of an AUR build.
pub fn build_workspace(pkg_name: &str) -> (d: String)
    ensures
        d@ == join_rel("/var/tmp/mimic-build"@, pkg_name@),
{
    join_rel_exec("/var/tmp/mimic-build", pkg_name)
}

/// A file left by `makepkg` that is a package archive (not a signature).
pub open spec fn spec_is_built_package(name: Seq<char>) -> bool {
    (ends_with(name, ".pkg.tar.zst"@) || ends_with(name, ".pkg.tar.xz"@) || ends_with(name, ".pkg.tar.gz"@))
        && !ends_with(name, ".sig"@)
}

/// Whether a file of the build directory is a built package archive.
pub fn is_built_package(file_name: &str) -> (b: bool)
    ensures
        b == spec_is_built_package(file_name@),
{
    let n = chars_of(file_name);
    (ends_with_str(&n, ".pkg.tar.zst") || ends_with_str(&n, ".pkg.tar.xz") || ends_with_str(&n, ".pkg.tar.gz"))
        && !ends_with_str(&n, ".sig")
}

} // verus!
