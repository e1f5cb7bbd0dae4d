//! What the engine shows of libalpm's databases and transactions: search
//! matching, package details and the transaction plan's totals.

use vstd::prelude::*;
use crate::config::path_parts;
use crate::text::{chars_of, contains, contains_chars, ends_with, ends_with_str, lowercase, to_lowercase_chars};

verus! {

/// A package found in a sync database.
#[derive(Debug, Clone)]
pub struct SearchResult {
    pub repo: String,
    pub name: String,
    pub version: String,
    pub description: String,
    pub installed_version: Option<String>,
}

/// What the engine shows of one package.
#[derive(Debug, Clone)]
pub struct PackageDetails {
    pub repo: String,
    pub name: String,
    pub version: String,
    pub description: String,
    pub url: String,
    pub licenses: Vec<String>,
    pub dependencies: Vec<String>,
    pub optional_deps: Vec<String>,
    pub packager: String,
    pub download_size: i64,
    pub installed_size: i64,
    pub build_date: String,
    pub is_installed: bool,
}

/// A package matches a query when its name or description, lowercased, contains
/// the lowercased query.
pub open spec fn spec_search_matches(name: Seq<char>, desc: Seq<char>, query: Seq<char>) -> bool {
    contains(lowercase(name), lowercase(query)) || contains(lowercase(desc), lowercase(query))
}

/// Whether a package with this name and description matches a search query.
pub fn search_matches(name: &str, desc: &str, query: &str) -> (b: bool)
    ensures
        b == spec_search_matches(name@, desc@, query@),
{
    let q = to_lowercase_chars(&chars_of(query));
    let n = to_lowercase_chars(&chars_of(name));
    if contains_chars(&n, &q) {
        return true;
    }
    let d = to_lowercase_chars(&chars_of(desc));
    contains_chars(&d, &q)
}

/// `Path::new(root) == Path::new("/")`: a rooted path with no other component.
pub open spec fn is_host_root(root: Seq<char>) -> bool {
    root.len() > 0 && root[0] == '/' && path_parts(root).len() == 0
}

/// Whether the engine runs against another root than the host's.
pub fn is_sandbox_root(root_dir: &str) -> (b: bool)
    ensures
        b == !is_host_root(root_dir@),
{
    let v = chars_of(root_dir);
    if v.len() == 0 || v[0] != '/' {
        return true;
    }
    let parts = crate::config::path_parts_of(&v);
    parts.len() != 0
}

/// A target that names a local package archive (when the file exists).
pub open spec fn spec_is_archive_target(t: Seq<char>) -> bool {
    ends_with(t, ".pkg.tar.zst"@) || ends_with(t, ".pkg.tar.xz"@) || ends_with(t, ".pkg.tar.gz"@)
}

/// Whether an install target is written as a package archive.
pub fn is_archive_target(target: &str) -> (b: bool)
    ensures
        b == spec_is_archive_target(target@),
{
    let t = chars_of(target);
    ends_with_str(&t, ".pkg.tar.zst") || ends_with_str(&t, ".pkg.tar.xz") || ends_with_str(&t, ".pkg.tar.gz")
}

/// The sum of the download sizes of the packages to add.
pub open spec fn download_total(adds: Seq<(String, String, i64)>) -> int
    decreases adds.len(),
{
    if adds.len() == 0 {
        0
    } else {
        download_total(adds.drop_last()) + adds.last().2
    }
}

/// The plan's download total is the sum of the download sizes it lists.
pub open spec fn totals_consistent(p: TransactionPlan) -> bool {
    p.total_download_size == download_total(p.to_add@)
}

/// The packages a transaction adds and removes, and its size totals.
#[derive(Debug, Clone)]
pub struct TransactionPlan {
    pub to_add: Vec<(String, String, i64)>,
    pub to_remove: Vec<(String, String)>,
    pub total_download_size: i64,
    pub net_installed_size: i64,
}

impl TransactionPlan {
    /// An empty plan.
    pub fn new() -> (p: TransactionPlan)
        ensures
            p.to_add@.len() == 0,
            p.to_remove@.len() == 0,
            p.total_download_size == 0,
            p.net_installed_size == 0,
            totals_consistent(p),
    {
        TransactionPlan { to_add: Vec::new(), to_remove: Vec::new(), total_download_size: 0, net_installed_size: 0 }
    }

    /// Adds a package to install: its download size counts towards the download,
    /// its installed size towards the net size.
    pub fn add_install(&mut self, name: String, version: String, download_size: i64, installed_size: i64)
        requires
            i64::MIN <= old(self).total_download_size + download_size <= i64::MAX,
            i64::MIN <= old(self).net_installed_size + installed_size <= i64::MAX,
        ensures
            final(self).to_add@ == old(self).to_add@.push((name, version, download_size)),
            final(self).to_remove@ == old(self).to_remove@,
            final(self).total_download_size == old(self).total_download_size + download_size,
            final(self).net_installed_size == old(self).net_installed_size + installed_size,
            totals_consistent(*old(self)) ==> totals_consistent(*final(self)),
    {
        self.to_add.push((name, version, download_size));
        assert(self.to_add@.drop_last() == old(self).to_add@);
        self.total_download_size = self.total_download_size + download_size;
        self.net_installed_size = self.net_installed_size + installed_size;
    }

    /// Adds a package to remove: its installed size is freed.
    pub fn add_removal(&mut self, name: String, version: String, installed_size: i64)
        requires
            i64::MIN <= old(self).net_installed_size - installed_size <= i64::MAX,
        ensures
            final(self).to_remove@ == old(self).to_remove@.push((name, version)),
            final(self).to_add@ == old(self).to_add@,
            final(self).total_download_size == old(self).total_download_size,
            final(self).net_installed_size == old(self).net_installed_size - installed_size,
            totals_consistent(*old(self)) ==> totals_consistent(*final(self)),
    {
        self.to_remove.push((name, version));
        self.net_installed_size = self.net_installed_size - installed_size;
    }
}

} // verus!
