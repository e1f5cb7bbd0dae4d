//! Grafting an unpacked package into the Mimic root, and the ledger's
//! reference counting of the files it installs.

use vstd::prelude::*;
use crate::config::{join_rel, join_rel_exec, path_parts, path_parts_of, strings_view};
use crate::text::{
    append, append_str, chars_of, contains, contains_str, ends_with, ends_with_str, lines, lines_of,
    starts_with, starts_with_str, string_of, vecs_view, words, words_of,
};
use crate::sandbox::{join_lines, join_with_newlines};

verus! {

/// The Mimic root: `/mimic` when it exists or is writable, else
/// `$HOME/.local/mimic`, else `/tmp/mimic`.
pub fn get_mimic_root(global_usable: bool, home: Option<&str>) -> (r: String)
    ensures
        r@ == if global_usable {
            "/mimic"@
        } else {
            match home {
                Some(h) => join_rel(h@, ".local/mimic"@),
                None => "/tmp/mimic"@,
            }
        },
{
    if global_usable {
        String::from_str("/mimic")
    } else {
        match home {
            Some(h) => join_rel_exec(h, ".local/mimic"),
            None => String::from_str("/tmp/mimic"),
        }
    }
}

/// The directories a package is grafted into.
#[derive(Debug, Clone)]
pub struct GraftDirs {
    pub bin_dir: String,
    pub companion_dir: String,
    pub share_dir: String,
    pub apps_dir: String,
    pub icons_dir: String,
}

/// The grafting directories of `package_id` under the Mimic root.
pub fn graft_dirs(mimic_root: &str, package_id: &str) -> (d: GraftDirs)
    ensures
        d.bin_dir@ == join_rel(mimic_root@, "bin"@),
        d.companion_dir@ == join_rel(join_rel(mimic_root@, "lib"@), package_id@),
        d.share_dir@ == join_rel(mimic_root@, "share"@),
        d.apps_dir@ == join_rel(join_rel(mimic_root@, "share"@), "applications"@),
        d.icons_dir@ == join_rel(join_rel(mimic_root@, "share"@), "icons"@),
{
    let lib = join_rel_exec(mimic_root, "lib");
    let share = join_rel_exec(mimic_root, "share");
    GraftDirs {
        bin_dir: join_rel_exec(mimic_root, "bin"),
        companion_dir: join_rel_exec(lib.as_str(), package_id),
        apps_dir: join_rel_exec(share.as_str(), "applications"),
        icons_dir: join_rel_exec(share.as_str(), "icons"),
        share_dir: share,
    }
}

/// What happens to an unpacked file in the second grafting pass.
#[derive(Debug, Clone, Copy, PartialEq, Eq, Structural)]
pub enum GraftKind {
    /// An executable, copied to the bin directory.
    Binary,
    /// A desktop entry, patched and copied.
    Desktop,
    /// An icon, copied under the share directory.
    Icon,
    /// Anything else (libraries are taken in the first pass).
    Skip,
}

/// The kind of an unpacked file, from its path and file name.
pub open spec fn spec_graft_kind(path: Seq<char>, file_name: Seq<char>, is_dir: bool) -> GraftKind {
    let in_bin = contains(path, "/bin/"@) || contains(path, "/sbin/"@) || contains(path, "/opt/"@);
    if in_bin && !contains(file_name, ".so"@) && !is_dir {
        GraftKind::Binary
    } else if ends_with(file_name, ".desktop"@) {
        GraftKind::Desktop
    } else if contains(path, "/icons/"@) || contains(path, "/pixmaps/"@) {
        GraftKind::Icon
    } else {
        GraftKind::Skip
    }
}

pub struct GraftEngine;

impl GraftEngine {
    /// Whether an unpacked file is a companion library (its name holds `.so`).
    pub fn is_companion_lib(file_name: &str) -> (b: bool)
        ensures
            b == contains(file_name@, ".so"@),
    {
        contains_str(&chars_of(file_name), ".so")
    }

    /// The kind of an unpacked file in the second pass.
    pub fn graft_kind(path: &str, file_name: &str, is_dir: bool) -> (k: GraftKind)
        ensures
            k == spec_graft_kind(path@, file_name@, is_dir),
    {
        let p = chars_of(path);
        let f = chars_of(file_name);
        let in_bin = contains_str(&p, "/bin/") || contains_str(&p, "/sbin/") || contains_str(&p, "/opt/");
        if in_bin && !contains_str(&f, ".so") && !is_dir {
            GraftKind::Binary
        } else if ends_with_str(&f, ".desktop") {
            GraftKind::Desktop
        } else if contains_str(&p, "/icons/") || contains_str(&p, "/pixmaps/") {
            GraftKind::Icon
        } else {
            GraftKind::Skip
        }
    }
}

/// `Path::file_name` as text, empty when the path has none.
pub open spec fn path_file_name(p: Seq<char>) -> Seq<char> {
    let parts = path_parts(p);
    if parts.len() == 0 || parts.last() == ".."@ { seq![] } else { parts.last() }
}

/// The words joined with single spaces.
pub open spec fn join_spaces(ws: Seq<Seq<char>>) -> Seq<char>
    decreases ws.len(),
{
    if ws.len() == 0 {
        seq![]
    } else if ws.len() == 1 {
        ws[0]
    } else {
        join_spaces(ws.drop_last()) + " "@ + ws.last()
    }
}

/// A desktop-entry line with its `Exec=` command pointed at the grafted binary.
pub open spec fn patch_exec_line(l: Seq<char>, bin_dir: Seq<char>) -> Seq<char> {
    if starts_with(l, "Exec="@) {
        let ws = words(l.skip(5));
        if ws.len() > 0 {
            "Exec="@ + join_rel(bin_dir, path_file_name(ws[0])) + " "@ + join_spaces(ws.skip(1))
        } else {
            l
        }
    } else {
        l
    }
}

/// A desktop entry with its `Exec=` lines pointed at the grafted binaries.
pub open spec fn spec_patch_desktop(content: Seq<char>, bin_dir: Seq<char>) -> Seq<char> {
    join_lines(lines(content).map_values(|l: Seq<char>| patch_exec_line(l, bin_dir)))
}

fn file_name_of(p: &[char]) -> (r: Vec<char>)
    ensures
        r@ == path_file_name(p@),
{
    let parts = path_parts_of(p);
    if parts.len() == 0 || crate::text::eq_str(&parts[parts.len() - 1], "..") {
        Vec::new()
    } else {
        let k = parts.len() - 1;
        let r = crate::text::slice_chars(&parts[k], 0, parts[k].len());
        assert(parts@[k as int]@.subrange(0, parts@[k as int]@.len() as int) == parts@[k as int]@);
        r
    }
}

fn join_words_from(ws: &Vec<Vec<char>>, start: usize) -> (r: Vec<char>)
    requires
        start <= ws.len(),
    ensures
        r@ == join_spaces(vecs_view(ws@).skip(start as int)),
{
    let ghost wv = vecs_view(ws@).skip(start as int);
    let mut r: Vec<char> = Vec::new();
    let mut i: usize = start;
    assert(wv.take(0) =~= Seq::<Seq<char>>::empty());
    while i < ws.len()
        invariant
            start <= i <= ws.len(),
            wv == vecs_view(ws@).skip(start as int),
            r@ == join_spaces(wv.take(i - start)),
        decreases ws.len() - i,
    {
        assert(wv.take(i + 1 - start).drop_last() == wv.take(i - start));
        assert(wv.take(i + 1 - start).last() == ws@[i as int]@);
        if i > start {
            r.push(' ');
            proof {
                reveal_strlit(" ");
            }
        }
        append(&mut r, &ws[i]);
        proof {
            if i == start {
                assert(wv.take(1) =~= seq![wv[0]]);
            }
        }
        i = i + 1;
    }
    assert(wv.take(i - start) == wv);
    r
}

impl GraftEngine {
    /// The desktop entry with its `Exec=` lines pointed at the binaries in `bin_dir`.
    pub fn patch_desktop(content: &str, bin_dir: &str) -> (r: String)
        ensures
            r@ == spec_patch_desktop(content@, bin_dir@),
    {
        let ls = lines_of(&chars_of(content));
        let ghost sl = lines(content@);
        let ghost mapped = sl.map_values(|l: Seq<char>| patch_exec_line(l, bin_dir@));
        let mut out: Vec<Vec<char>> = Vec::new();
        let mut i: usize = 0;
        while i < ls.len()
            invariant
                i <= ls.len(),
                sl == vecs_view(ls@),
                sl == lines(content@),
                mapped == sl.map_values(|l: Seq<char>| patch_exec_line(l, bin_dir@)),
                vecs_view(out@) == mapped.take(i as int),
            decreases ls.len() - i,
        {
            let l = &ls[i];
            assert(sl[i as int] == l@);
            proof {
                reveal_strlit("Exec=");
            }
            let mut line: Vec<char> = crate::text::slice_chars(l, 0, l.len());
            assert(l@.subrange(0, l@.len() as int) == l@);
            if starts_with_str(l, "Exec=") {
                let cmd = crate::text::slice_chars(l, 5, l.len());
                assert(cmd@ == l@.skip(5));
                let ws = words_of(&cmd);
                if ws.len() > 0 {
                    assert(vecs_view(ws@)[0] == ws@[0]@);
                    let name = file_name_of(&ws[0]);
                    let target = join_rel_exec(bin_dir, string_of(&name).as_str());
                    let mut nl = chars_of("Exec=");
                    append_str(&mut nl, target.as_str());
                    nl.push(' ');
                    proof {
                        reveal_strlit(" ");
                    }
                    let rest = join_words_from(&ws, 1);
                    append(&mut nl, &rest);
                    line = nl;
                }
            }
            assert(line@ == patch_exec_line(sl[i as int], bin_dir@));
            let ghost b = vecs_view(out@);
            out.push(line);
            assert(vecs_view(out@) == b.push(mapped[i as int]));
            assert(mapped.take(i + 1) == mapped.take(i as int).push(mapped[i as int]));
            i = i + 1;
        }
        assert(mapped.take(i as int) == mapped);
        string_of(&join_with_newlines(&out))
    }
}

// ----------------------------------------------------------------------------
// The state ledger
// ----------------------------------------------------------------------------

/// An absorbed package, as the ledger records it.
#[derive(Debug, Clone)]
pub struct AbilityRecord {
    pub id: String,
    pub name: String,
    pub source_type: String,
    pub upstream_url: String,
    pub version: String,
    pub consumed_at: String,
    pub binary_paths: Vec<String>,
    pub companion_libs: Vec<String>,
    pub desktop_files: Vec<String>,
}

/// The files an ability installed: its binaries, libraries and desktop entries.
pub open spec fn spec_ability_files(r: AbilityRecord) -> Seq<Seq<char>> {
    strings_view(r.binary_paths@) + strings_view(r.companion_libs@) + strings_view(r.desktop_files@)
}

fn push_all(v: &mut Vec<String>, w: &Vec<String>)
    ensures
        strings_view(final(v)@) == strings_view(old(v)@) + strings_view(w@),
{
    let ghost b = strings_view(v@);
    let mut i: usize = 0;
    while i < w.len()
        invariant
            i <= w.len(),
            strings_view(v@) == b + strings_view(w@.take(i as int)),
        decreases w.len() - i,
    {
        let ghost b2 = strings_view(v@);
        v.push(w[i].clone());
        assert(strings_view(v@) == b2.push(w@[i as int]@));
        assert(strings_view(w@.take(i + 1)) == strings_view(w@.take(i as int)).push(w@[i as int]@));
        i = i + 1;
    }
    assert(w@.take(i as int) == w@);
}

/// The files an ability installed, in registry order.
pub fn ability_files(record: &AbilityRecord) -> (files: Vec<String>)
    ensures
        strings_view(files@) == spec_ability_files(*record),
{
    let mut files: Vec<String> = Vec::new();
    push_all(&mut files, &record.binary_paths);
    push_all(&mut files, &record.companion_libs);
    push_all(&mut files, &record.desktop_files);
    assert(strings_view(files@) =~= spec_ability_files(*record));
    files
}

/// What removing an ability does to one of its files.
#[derive(Debug, Clone, Copy, PartialEq, Eq, Structural)]
pub enum RefAction {
    /// The file is not in the registry: nothing to do.
    Untracked,
    /// The last reference goes: the entry is dropped and the file deleted.
    Delete,
    /// Other abilities still use the file: its count goes down by one.
    Decrement,
}

/// What removing an ability does to a file with the registry count `count`.
pub fn release_decision(count: Option<i64>) -> (a: RefAction)
    ensures
        a == match count {
            Some(c) => if c <= 1 { RefAction::Delete } else { RefAction::Decrement },
            None => RefAction::Untracked,
        },
{
    match count {
        Some(c) => if c <= 1 {
            RefAction::Delete
        } else {
            RefAction::Decrement
        },
        None => RefAction::Untracked,
    }
}

/// The ledger database: `/mimic/state.db` when `/mimic` is usable, else under
/// `$HOME/.local/share/mimic`, else `/tmp/mimic/state.db`.
pub fn default_db_path(global_usable: bool, home: Option<&str>) -> (p: String)
    ensures
        p@ == if global_usable {
            "/mimic/state.db"@
        } else {
            match home {
                Some(h) => join_rel(h@, ".local/share/mimic/state.db"@),
                None => "/tmp/mimic/state.db"@,
            }
        },
{
    if global_usable {
        String::from_str("/mimic/state.db")
    } else {
        match home {
            Some(h) => join_rel_exec(h, ".local/share/mimic/state.db"),
            None => String::from_str("/tmp/mimic/state.db"),
        }
    }
}

} // verus!
