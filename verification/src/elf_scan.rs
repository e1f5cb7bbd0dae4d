//! Reading ELF binaries: the magic number, the program interpreter, the
//! libraries they need, and the run paths the engine gives them.

use vstd::prelude::*;
use object::{Object, ObjectSection};
use sha2::Digest;
use crate::config::{opt_view, strings_view};
use crate::text::{
    append_str, chars_of, contains, contains_str, eq_chars, eq_str, lines, lines_of, starts_with,
    starts_with_str, string_of, trim, trim_chars, vecs_view,
};

verus! {

/// The bytes begin with the ELF magic number.
pub open spec fn spec_is_elf(head: Seq<u8>) -> bool {
    head.len() >= 4 && head[0] == 0x7f && head[1] == 0x45 && head[2] == 0x4c && head[3] == 0x46
}

/// Whether the first bytes of a file are the ELF magic number.
pub fn is_elf_magic(head: &[u8]) -> (b: bool)
    ensures
        b == spec_is_elf(head@),
{
    head.len() >= 4 && head[0] == 0x7f && head[1] == 0x45 && head[2] == 0x4c && head[3] == 0x46
}

/// What `object::File::parse` and its section iterator give for a file's bytes:
/// `None` when the file is not an object file the crate reads, else each
/// section's name and data (`None` where the crate could not read them).
pub uninterp spec fn object_section_table(bytes: Seq<u8>) -> Option<Seq<(Option<Seq<char>>, Option<Seq<u8>>)>>;

pub open spec fn section_view(s: (Option<String>, Option<Vec<u8>>)) -> (Option<Seq<char>>, Option<Seq<u8>>) {
    (opt_view(s.0), match s.1 {
        Some(d) => Some(d@),
        None => None,
    })
}

pub open spec fn sections_view(v: Seq<(Option<String>, Option<Vec<u8>>)>) -> Seq<(Option<Seq<char>>, Option<Seq<u8>>)> {
    v.map_values(|s: (Option<String>, Option<Vec<u8>>)| section_view(s))
}

/// Parses the bytes with `object::File::parse` and lists each section's
/// `name()` and `data()`; the result is named by [`object_section_table`].
#[verifier::external_body]
fn object_sections(buffer: &[u8]) -> (r: Option<Vec<(Option<String>, Option<Vec<u8>>)>>)
    ensures
        match r {
            Some(v) => object_section_table(buffer@) == Some(sections_view(v@)),
            None => object_section_table(buffer@).is_none(),
        },
{
    match object::File::parse(buffer) {
        Ok(f) => Some(
            f.sections().map(|s| (s.name().ok().map(|n| n.to_string()), s.data().ok().map(|d| d.to_vec()))).collect(),
        ),
        Err(_) => None,
    }
}

/// What `String::from_utf8_lossy` makes of some bytes.
pub uninterp spec fn utf8_lossy(bytes: Seq<u8>) -> Seq<char>;

/// Calls std `String::from_utf8_lossy`; the result is named by [`utf8_lossy`].
#[verifier::external_body]
pub(crate) fn from_utf8_lossy(bytes: &[u8]) -> (s: String)
    ensures
        s@ == utf8_lossy(bytes@),
{
    String::from_utf8_lossy(bytes).to_string()
}

/// `s` without the `c` characters at either end (`str::trim_matches(c)`).
pub open spec fn trim_char(s: Seq<char>, c: char) -> Seq<char>
    decreases s.len(),
{
    if s.len() > 0 && s[0] == c {
        trim_char(s.drop_first(), c)
    } else if s.len() > 0 && s.last() == c {
        trim_char(s.drop_last(), c)
    } else {
        s
    }
}

fn trim_char_vec(v: &[char], c: char) -> (r: Vec<char>)
    ensures
        r@ == trim_char(v@, c),
{
    let mut a: usize = 0;
    let mut b: usize = v.len();
    assert(v@.subrange(0, v.len() as int) == v@);
    while a < b && (v[a] == c || v[b - 1] == c)
        invariant
            a <= b <= v.len(),
            trim_char(v@, c) == trim_char(v@.subrange(a as int, b as int), c),
        decreases b - a,
    {
        let ghost s = v@.subrange(a as int, b as int);
        if v[a] == c {
            assert(s.drop_first() == v@.subrange(a + 1, b as int));
            a = a + 1;
        } else {
            assert(s.drop_last() == v@.subrange(a as int, b - 1));
            b = b - 1;
        }
    }
    crate::text::slice_chars(v, a, b)
}

/// The interpreter named by the last readable `.interp` section, as text
/// without surrounding NULs.
pub open spec fn interp_of(table: Seq<(Option<Seq<char>>, Option<Seq<u8>>)>) -> Option<Seq<char>>
    decreases table.len(),
{
    if table.len() == 0 {
        None
    } else {
        let (name, data) = table.last();
        match (name, data) {
            (Some(n), Some(d)) => if n == ".interp"@ {
                Some(trim_char(utf8_lossy(d), '\0'))
            } else {
                interp_of(table.drop_last())
            },
            _ => interp_of(table.drop_last()),
        }
    }
}

/// Why a binary could not be read.
#[derive(Debug, Clone, Copy, PartialEq, Eq, Structural)]
pub enum ElfError {
    /// The bytes are not an object file.
    Unparsable,
}

/// The program interpreter of a binary (its bytes); an error when the bytes are
/// not an object file.
pub fn elf_interpreter(buffer: &[u8]) -> (r: Result<Option<String>, ElfError>)
    ensures
        match object_section_table(buffer@) {
            Some(t) => match r {
                Ok(i) => opt_view(i) == interp_of(t),
                Err(_) => false,
            },
            None => r == Err::<Option<String>, ElfError>(ElfError::Unparsable),
        },
{
    let secs = match object_sections(buffer) {
        Some(s) => s,
        None => {
            return Err(ElfError::Unparsable);
        },
    };
    Ok(interpreter_in(&secs))
}

/// The program interpreter named by a binary's sections (name and data of each,
/// where they could be read).
pub fn interpreter_in(secs: &Vec<(Option<String>, Option<Vec<u8>>)>) -> (r: Option<String>)
    ensures
        opt_view(r) == interp_of(sections_view(secs@)),
{
    let ghost t = sections_view(secs@);
    let mut k: usize = secs.len();
    assert(t.take(k as int) == t);
    while k > 0
        invariant
            k <= secs.len(),
            t == sections_view(secs@),
            interp_of(t) == interp_of(t.take(k as int)),
        decreases k,
    {
        assert(t.take(k as int).drop_last() == t.take(k - 1));
        assert(t.take(k as int).last() == section_view(secs@[k - 1]));
        match (&secs[k - 1].0, &secs[k - 1].1) {
            (Some(n), Some(d)) => {
                if eq_str(&chars_of(n.as_str()), ".interp") {
                    assert(section_view(secs@[k - 1]) == (Some(n@), Some(d@)));
                    assert(interp_of(t.take(k as int)) == Some(trim_char(utf8_lossy(d@), '\0')));
                    let s = from_utf8_lossy(d.as_slice());
                    let i = trim_char_vec(&chars_of(s.as_str()), '\0');
                    let out = string_of(&i);
                    return Some(out);
                }
            },
            _ => {},
        }
        k = k - 1;
    }
    None
}

/// The library names `patchelf --print-needed` printed: its non-blank lines, trimmed.
pub open spec fn needed_from(ls: Seq<Seq<char>>) -> Seq<Seq<char>>
    decreases ls.len(),
{
    if ls.len() == 0 {
        seq![]
    } else if trim(ls.last()).len() > 0 {
        needed_from(ls.drop_last()).push(trim(ls.last()))
    } else {
        needed_from(ls.drop_last())
    }
}

/// The libraries a binary needs, from the output of `patchelf --print-needed`.
pub fn parse_needed(out: &str) -> (r: Vec<String>)
    ensures
        strings_view(r@) == needed_from(lines(out@)),
{
    let ls = lines_of(&chars_of(out));
    let ghost sl = lines(out@);
    let mut r: Vec<String> = Vec::new();
    let mut i: usize = 0;
    assert(sl.take(0) =~= Seq::<Seq<char>>::empty());
    while i < ls.len()
        invariant
            i <= ls.len(),
            sl == vecs_view(ls@),
            sl == lines(out@),
            strings_view(r@) == needed_from(sl.take(i as int)),
        decreases ls.len() - i,
    {
        assert(sl.take(i + 1).drop_last() == sl.take(i as int));
        assert(sl.take(i + 1).last() == ls@[i as int]@);
        let t = trim_chars(&ls[i]);
        if t.len() > 0 {
            let ghost b = strings_view(r@);
            r.push(string_of(&t));
            assert(strings_view(r@) == b.push(t@));
        }
        i = i + 1;
    }
    assert(sl.take(i as int) == sl);
    r
}

/// The run path from the output of `patchelf --print-rpath`, when it is not blank.
pub fn parse_runpath(out: &str) -> (r: Option<String>)
    ensures
        opt_view(r) == if trim(out@).len() > 0 { Some(trim(out@)) } else { None },
{
    let t = trim_chars(&chars_of(out));
    if t.len() > 0 {
        Some(string_of(&t))
    } else {
        None
    }
}

/// The libraries not found anywhere: those whose `found` flag is false.
pub fn missing_libraries(needed: &[String], found: &[bool]) -> (r: Vec<String>)
    requires
        needed.len() == found.len(),
    ensures
        strings_view(r@) == missing_from(strings_view(needed@), found@),
{
    let ghost nv = strings_view(needed@);
    let mut r: Vec<String> = Vec::new();
    let mut i: usize = 0;
    assert(nv.take(0) =~= Seq::<Seq<char>>::empty());
    while i < needed.len()
        invariant
            i <= needed.len(),
            needed.len() == found.len(),
            nv == strings_view(needed@),
            strings_view(r@) == missing_from(nv.take(i as int), found@.take(i as int)),
        decreases needed.len() - i,
    {
        assert(nv.take(i + 1).drop_last() == nv.take(i as int));
        assert(found@.take(i + 1).drop_last() == found@.take(i as int));
        assert(nv.take(i + 1).last() == needed@[i as int]@);
        if !found[i] {
            let ghost b = strings_view(r@);
            r.push(needed[i].clone());
            assert(strings_view(r@) == b.push(needed@[i as int]@));
        }
        i = i + 1;
    }
    assert(nv.take(i as int) == nv);
    assert(found@.take(i as int) == found@);
    r
}

/// The libraries whose flag says they were not found, in order.
pub open spec fn missing_from(libs: Seq<Seq<char>>, found: Seq<bool>) -> Seq<Seq<char>>
    decreases libs.len(),
{
    if libs.len() == 0 || found.len() == 0 {
        seq![]
    } else if !found.last() {
        missing_from(libs.drop_last(), found.drop_last()).push(libs.last())
    } else {
        missing_from(libs.drop_last(), found.drop_last())
    }
}

/// What the dynamic linking of a binary needs and lacks.
#[derive(Debug, Clone)]
pub struct DynamicDependencyAnalysis {
    pub needed_libraries: Vec<String>,
    pub missing_libraries: Vec<String>,
    pub interpreter: Option<String>,
    pub runpath: Option<String>,
}

/// The run path a `patchelf --print-rpath` output gives (`None` when patchelf
/// did not run successfully).
pub open spec fn runpath_of(out: Option<Seq<char>>) -> Option<Seq<char>> {
    match out {
        Some(o) => if trim(o).len() > 0 { Some(trim(o)) } else { None },
        None => None,
    }
}

/// The dependency analysis of a binary: its bytes, the libraries it needs (from
/// `patchelf --print-needed`), whether each was found in the companion directory
/// or on the host, and the output of `patchelf --print-rpath` when it ran. An
/// error when the bytes are not an object file.
pub fn dependency_analysis(
    buffer: &[u8],
    needed: Vec<String>,
    found: &[bool],
    rpath_out: Option<&str>,
) -> (r: Result<DynamicDependencyAnalysis, ElfError>)
    requires
        needed.len() == found.len(),
    ensures
        match object_section_table(buffer@) {
            Some(t) => r matches Ok(a) && opt_view(a.interpreter) == interp_of(t) && a.needed_libraries@
                == needed@ && strings_view(a.missing_libraries@) == missing_from(strings_view(needed@), found@)
                && opt_view(a.runpath) == runpath_of(
                match rpath_out {
                    Some(o) => Some(o@),
                    None => None,
                },
            ),
            None => r is Err && r == Err::<DynamicDependencyAnalysis, ElfError>(ElfError::Unparsable),
        },
{
    let interpreter = match elf_interpreter(buffer) {
        Ok(i) => i,
        Err(e) => {
            return Err(e);
        },
    };
    let missing = missing_libraries(needed.as_slice(), found);
    let runpath = match rpath_out {
        Some(o) => parse_runpath(o),
        None => None,
    };
    Ok(DynamicDependencyAnalysis { needed_libraries: needed, missing_libraries: missing, interpreter, runpath })
}

/// The SHA-256 digest of some bytes, in lowercase hexadecimal.
pub uninterp spec fn sha256_hex(bytes: Seq<u8>) -> Seq<char>;

/// Hashes the bytes with `sha2::Sha256` and writes the digest with `{:x}`; the
/// result is named by [`sha256_hex`].
#[verifier::external_body]
fn sha256_digest_hex(bytes: &[u8]) -> (s: String)
    ensures
        s@ == sha256_hex(bytes@),
{
    format!("{:x}", sha2::Sha256::digest(bytes))
}

pub struct SonameScanner;

impl SonameScanner {
    /// The SHA-256 fingerprint of a file's contents, in lowercase hexadecimal.
    pub fn compute_sha256(contents: &[u8]) -> (s: String)
        ensures
            s@ == sha256_hex(contents@),
    {
        sha256_digest_hex(contents)
    }

    /// Whether a file name is that of a shared library (it holds `.so`).
    pub fn is_shared_object_name(fname: &str) -> (b: bool)
        ensures
            b == contains(fname@, ".so"@),
    {
        contains_str(&chars_of(fname), ".so")
    }
}

/// The host directories searched for libraries.
pub fn host_lib_dirs() -> (d: [&'static str; 7])
    ensures
        d@.map_values(|s: &str| s@) == seq![
            "/usr/lib"@, "/usr/lib64"@, "/lib"@, "/lib64"@, "/usr/local/lib"@,
            "/usr/lib/x86_64-linux-gnu"@, "/lib/x86_64-linux-gnu"@,
        ],
{
    let d: [&'static str; 7] = [
        "/usr/lib", "/usr/lib64", "/lib", "/lib64", "/usr/local/lib", "/usr/lib/x86_64-linux-gnu",
        "/lib/x86_64-linux-gnu",
    ];
    assert(d@.map_values(|s: &str| s@) =~= seq![
        "/usr/lib"@, "/usr/lib64"@, "/lib"@, "/lib64"@, "/usr/local/lib"@,
        "/usr/lib/x86_64-linux-gnu"@, "/lib/x86_64-linux-gnu"@,
    ]);
    d
}

/// The libraries the binaries need that are neither unpacked nor in a companion
/// directory (the names in `available`), each once, in the order first needed.
pub open spec fn pending_from(available: Seq<Seq<char>>, needed: Seq<Seq<char>>) -> Seq<Seq<char>>
    decreases needed.len(),
{
    if needed.len() == 0 {
        seq![]
    } else {
        let p = pending_from(available, needed.drop_last());
        let l = needed.last();
        if available.contains(l) || p.contains(l) { p } else { p.push(l) }
    }
}

fn contains_string(v: &Vec<String>, x: &str) -> (b: bool)
    ensures
        b == strings_view(v@).contains(x@),
{
    let xv = chars_of(x);
    let ghost sv = strings_view(v@);
    let mut i: usize = 0;
    while i < v.len()
        invariant
            i <= v.len(),
            sv == strings_view(v@),
            xv@ == x@,
            forall|k: int| 0 <= k < i ==> sv[k] != x@,
        decreases v.len() - i,
    {
        assert(sv[i as int] == v@[i as int]@);
        if eq_chars(&chars_of(v[i].as_str()), &xv) {
            return true;
        }
        i = i + 1;
    }
    assert(!sv.contains(x@)) by {
        if sv.contains(x@) {
            let k = choose|k: int| 0 <= k < sv.len() && sv[k] == x@;
            assert(sv[k] != x@);
        }
    }
    false
}

/// The needed libraries still to look for on the host: not available, each once.
pub fn pending_sonames(available: &Vec<String>, needed: &[String]) -> (r: Vec<String>)
    ensures
        strings_view(r@) == pending_from(strings_view(available@), strings_view(needed@)),
{
    let ghost nv = strings_view(needed@);
    let ghost av = strings_view(available@);
    let mut r: Vec<String> = Vec::new();
    let mut i: usize = 0;
    assert(nv.take(0) =~= Seq::<Seq<char>>::empty());
    while i < needed.len()
        invariant
            i <= needed.len(),
            nv == strings_view(needed@),
            av == strings_view(available@),
            strings_view(r@) == pending_from(av, nv.take(i as int)),
        decreases needed.len() - i,
    {
        assert(nv.take(i + 1).drop_last() == nv.take(i as int));
        assert(nv.take(i + 1).last() == needed@[i as int]@);
        let l = needed[i].as_str();
        if !contains_string(available, l) && !contains_string(&r, l) {
            let ghost b = strings_view(r@);
            r.push(needed[i].clone());
            assert(strings_view(r@) == b.push(needed@[i as int]@));
        }
        i = i + 1;
    }
    assert(nv.take(i as int) == nv);
    r
}

pub struct ElfMutator;

impl ElfMutator {
    /// The run path given to a package's executables: its companion pocket, the
    /// nested `lib`, the global organ store, then the host.
    pub fn binary_rpath(package_id: &str) -> (r: String)
        ensures
            r@ == "$ORIGIN/../lib/"@ + package_id@ + ":$ORIGIN/lib:/mimic/lib:/usr/lib:/usr/lib64"@,
    {
        let mut v = chars_of("$ORIGIN/../lib/");
        append_str(&mut v, package_id);
        append_str(&mut v, ":$ORIGIN/lib:/mimic/lib:/usr/lib:/usr/lib64");
        string_of(&v)
    }

    /// The run path given to a package's libraries.
    pub fn library_rpath(package_id: &str) -> (r: String)
        ensures
            r@ == "$ORIGIN:$ORIGIN/../"@ + package_id@ + ":/mimic/lib:/usr/lib:/usr/lib64"@,
    {
        let mut v = chars_of("$ORIGIN:$ORIGIN/../");
        append_str(&mut v, package_id);
        append_str(&mut v, ":/mimic/lib:/usr/lib:/usr/lib64");
        string_of(&v)
    }

    /// Whether a binary's interpreter is replaced by the host's glibc loader: it
    /// lives under `/lib/` or `/usr/lib/`, the host loader exists, and differs.
    pub fn should_fix_interpreter(interp: &str, host_loader_exists: bool) -> (b: bool)
        ensures
            b == ((starts_with(interp@, "/lib/"@) || starts_with(interp@, "/usr/lib/"@))
                && host_loader_exists && interp@ != "/lib64/ld-linux-x86-64.so.2"@),
    {
        let v = chars_of(interp);
        (starts_with_str(&v, "/lib/") || starts_with_str(&v, "/usr/lib/")) && host_loader_exists
            && !eq_str(&v, "/lib64/ld-linux-x86-64.so.2")
    }
}

} // verus!
