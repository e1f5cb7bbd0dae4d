//! Debian packages: finding them on the mirrors, reading their `ar` members and
//! their `control` file.

use std::io::Read;
use vstd::prelude::*;
use crate::config::{join_rel, join_rel_exec, opt_view, path_parts, path_parts_of, strings_view};
use crate::elf_scan::{utf8_lossy};
use crate::text::{
    append_str, chars_of, contains, contains_str, ends_with, ends_with_str, eq_str, lines,
    lines_of, replace, replace_str, split, split_chars, starts_with, starts_with_str, string_of,
    trim, trim_chars, vecs_view,
};

verus! {

// ----------------------------------------------------------------------------
// Mirrors
// ----------------------------------------------------------------------------

/// The Debian suites searched, newest first.
#[derive(Debug, Clone, Copy, PartialEq, Eq, Structural)]
pub enum UpstreamGround {
    DebianSid,
    DebianTrixie,
    DebianBookworm,
}

impl UpstreamGround {
    /// The suite's name on packages.debian.org.
    pub fn suite(self) -> (s: &'static str)
        ensures
            s@ == match self {
                UpstreamGround::DebianSid => "sid"@,
                UpstreamGround::DebianTrixie => "trixie"@,
                UpstreamGround::DebianBookworm => "bookworm"@,
            },
    {
        match self {
            UpstreamGround::DebianSid => "sid",
            UpstreamGround::DebianTrixie => "trixie",
            UpstreamGround::DebianBookworm => "bookworm",
        }
    }
}

/// The download page of a package in a suite.
pub fn download_page_url(suite: &str, pkg_name: &str) -> (u: String)
    ensures
        u@ == "https://packages.debian.org/"@ + suite@ + "/amd64/"@ + pkg_name@ + "/download"@,
{
    let mut v = chars_of("https://packages.debian.org/");
    append_str(&mut v, suite);
    append_str(&mut v, "/amd64/");
    append_str(&mut v, pkg_name);
    append_str(&mut v, "/download");
    string_of(&v)
}

/// A pool link of a Debian download page.
pub open spec fn is_pool_link(token: Seq<char>) -> bool {
    starts_with(token, "http://"@) && ends_with(token, ".deb"@) && contains(token, "/pool/"@)
}

/// A link moved to the deb.debian.org content network.
pub open spec fn normalize_mirror(token: Seq<char>) -> Seq<char> {
    replace(
        replace(
            replace(token, "http://ftp.debian.org/"@, "http://deb.debian.org/"@),
            "http://http.us.debian.org/"@,
            "http://deb.debian.org/"@,
        ),
        "http://ftp.us.debian.org/"@,
        "http://deb.debian.org/"@,
    )
}

/// A page line that may hold a pool link.
pub open spec fn is_mirror_line(l: Seq<char>) -> bool {
    contains(l, "http://ftp.debian.org/debian/pool/"@) || contains(l, "http://http.us.debian.org/debian/pool/"@)
}

/// The first pool link among the `"`-separated tokens.
pub open spec fn first_pool_link(tokens: Seq<Seq<char>>) -> Option<Seq<char>>
    decreases tokens.len(),
{
    if tokens.len() == 0 {
        None
    } else if is_pool_link(tokens[0]) {
        Some(tokens[0])
    } else {
        first_pool_link(tokens.drop_first())
    }
}

/// The first pool link on a mirror line of the page, moved to deb.debian.org.
pub open spec fn deb_link_in(ls: Seq<Seq<char>>) -> Option<Seq<char>>
    decreases ls.len(),
{
    if ls.len() == 0 {
        None
    } else {
        let found = if is_mirror_line(ls[0]) { first_pool_link(split(ls[0], '"')) } else { None };
        match found {
            Some(t) => Some(normalize_mirror(t)),
            None => deb_link_in(ls.drop_first()),
        }
    }
}

/// The `.deb` link of a packages.debian.org download page.
pub fn extract_deb_link(html: &str) -> (r: Option<String>)
    ensures
        opt_view(r) == deb_link_in(lines(html@)),
{
    let ls = lines_of(&chars_of(html));
    let ghost sl = vecs_view(ls@);
    let mut i: usize = 0;
    assert(sl.skip(0) == sl);
    while i < ls.len()
        invariant
            i <= ls.len(),
            sl == vecs_view(ls@),
            sl == lines(html@),
            deb_link_in(lines(html@)) == deb_link_in(sl.skip(i as int)),
        decreases ls.len() - i,
    {
        assert(sl.skip(i as int)[0] == ls@[i as int]@);
        assert(sl.skip(i as int).drop_first() == sl.skip(i + 1));
        let line = &ls[i];
        if contains_str(line, "http://ftp.debian.org/debian/pool/") || contains_str(
            line,
            "http://http.us.debian.org/debian/pool/",
        ) {
            let toks = split_chars(line, '"');
            let ghost tv = vecs_view(toks@);
            let mut k: usize = 0;
            assert(tv.skip(0) == tv);
            while k < toks.len()
                invariant
                    k <= toks.len(),
                    i < ls.len(),
                    tv == vecs_view(toks@),
                    tv == split(ls@[i as int]@, '"'),
                    is_mirror_line(ls@[i as int]@),
                    sl == vecs_view(ls@),
                    sl.skip(i as int)[0] == ls@[i as int]@,
                    deb_link_in(lines(html@)) == deb_link_in(sl.skip(i as int)),
                    first_pool_link(tv) == first_pool_link(tv.skip(k as int)),
                decreases toks.len() - k,
            {
                assert(tv.skip(k as int)[0] == toks@[k as int]@);
                assert(tv.skip(k as int).drop_first() == tv.skip(k + 1));
                let t = &toks[k];
                if starts_with_str(t, "http://") && ends_with_str(t, ".deb") && contains_str(t, "/pool/") {
                    proof {
                        reveal_strlit("http://ftp.debian.org/");
                        reveal_strlit("http://http.us.debian.org/");
                        reveal_strlit("http://ftp.us.debian.org/");
                    }
                    let cdn = chars_of("http://deb.debian.org/");
                    let n1 = replace_str(t, "http://ftp.debian.org/", &cdn);
                    let n2 = replace_str(&n1, "http://http.us.debian.org/", &cdn);
                    let n3 = replace_str(&n2, "http://ftp.us.debian.org/", &cdn);
                    return Some(string_of(&n3));
                }
                k = k + 1;
            }
            assert(tv.skip(k as int).len() == 0);
        }
        i = i + 1;
    }
    assert(sl.skip(i as int).len() == 0);
    None
}

/// The last `/` part of a URL (`str::split('/').last()`).
pub open spec fn url_file_name(url: Seq<char>) -> Seq<char> {
    split(url, '/').last()
}

/// The local file a download from `url` is saved as, in `dest`.
pub fn mirror_download_path(url: &str, dest: &str) -> (p: String)
    ensures
        p@ == join_rel(dest@, url_file_name(url@)),
{
    let parts = split_chars(&chars_of(url), '/');
    proof {
        crate::text::lemma_find_from_bounds(url@, '/', 0);
    }
    let ghost pv = vecs_view(parts@);
    assert(pv.len() > 0);
    let last = string_of(&parts[parts.len() - 1]);
    assert(pv.last() == parts@[parts.len() - 1]@);
    join_rel_exec(dest, last.as_str())
}

// ----------------------------------------------------------------------------
// Reading a .deb
// ----------------------------------------------------------------------------

/// What a Debian package says of itself.
#[derive(Debug, Clone)]
pub struct DebPackageInfo {
    pub name: String,
    pub version: String,
    pub architecture: String,
    pub description: String,
    pub extracted_dir: String,
}

pub struct DebHunter;

/// Why a `.deb` could not be read.
#[derive(Debug, Clone, Copy, PartialEq, Eq, Structural)]
pub enum DebError {
    /// The `ar` archive is corrupted.
    CorruptArchive,
    /// A member could not be decompressed or read as a tar archive.
    UnreadableMember,
    /// The data member uses a compression the engine does not know.
    UnsupportedCompression,
}

/// How a member of a `.deb` is compressed.
#[derive(Debug, Clone, Copy, PartialEq, Eq, Structural)]
pub enum Codec {
    Xz,
    Gz,
    Zstd,
    Plain,
}

/// The codec of a data member, by name; `None` when unsupported.
pub open spec fn spec_data_codec(name: Seq<char>) -> Option<Codec> {
    if ends_with(name, ".xz"@) {
        Some(Codec::Xz)
    } else if ends_with(name, ".gz"@) {
        Some(Codec::Gz)
    } else if ends_with(name, ".zst"@) || ends_with(name, ".zstd"@) {
        Some(Codec::Zstd)
    } else if ends_with(name, ".tar"@) {
        Some(Codec::Plain)
    } else {
        None
    }
}

/// The codec of a control member, by name: anything unknown is read as plain tar.
pub open spec fn spec_control_codec(name: Seq<char>) -> Codec {
    if ends_with(name, ".xz"@) {
        Codec::Xz
    } else if ends_with(name, ".gz"@) {
        Codec::Gz
    } else if ends_with(name, ".zst"@) {
        Codec::Zstd
    } else {
        Codec::Plain
    }
}

impl DebHunter {
    /// The codec of a `data.tar*` member.
    pub fn data_codec(filename: &str) -> (c: Option<Codec>)
        ensures
            c == spec_data_codec(filename@),
    {
        let n = chars_of(filename);
        if ends_with_str(&n, ".xz") {
            Some(Codec::Xz)
        } else if ends_with_str(&n, ".gz") {
            Some(Codec::Gz)
        } else if ends_with_str(&n, ".zst") || ends_with_str(&n, ".zstd") {
            Some(Codec::Zstd)
        } else if ends_with_str(&n, ".tar") {
            Some(Codec::Plain)
        } else {
            None
        }
    }

    /// The codec of a `control.tar*` member.
    pub fn control_codec(filename: &str) -> (c: Codec)
        ensures
            c == spec_control_codec(filename@),
    {
        let n = chars_of(filename);
        if ends_with_str(&n, ".xz") {
            Codec::Xz
        } else if ends_with_str(&n, ".gz") {
            Codec::Gz
        } else if ends_with_str(&n, ".zst") {
            Codec::Zstd
        } else {
            Codec::Plain
        }
    }
}

/// What `xz2::read::XzDecoder` reads from some bytes (`None` on a decoding error).
pub uninterp spec fn xz_decoded(bytes: Seq<u8>) -> Option<Seq<u8>>;

/// What `flate2::read::GzDecoder` reads from some bytes.
pub uninterp spec fn gz_decoded(bytes: Seq<u8>) -> Option<Seq<u8>>;

/// What `zstd::stream::read::Decoder` reads from some bytes.
pub uninterp spec fn zstd_decoded(bytes: Seq<u8>) -> Option<Seq<u8>>;

/// What `zstd::stream::encode_all` at level 3 makes of some bytes (`None` on an
/// error).
pub uninterp spec fn zstd_encoded(bytes: Seq<u8>) -> Option<Seq<u8>>;

/// The entries `tar::Archive::entries` yields for some bytes: each entry's path
/// (lossily as text) and contents; `None` when the archive cannot be read.
pub uninterp spec fn tar_entries(bytes: Seq<u8>) -> Option<Seq<(Seq<char>, Seq<u8>)>>;

/// The members `ar::Archive::next_entry` yields for some bytes: each member's
/// identifier and contents; `None` when the archive is corrupted.
pub uninterp spec fn ar_members(bytes: Seq<u8>) -> Option<Seq<(Seq<u8>, Seq<u8>)>>;

/// What `String::from_utf8` makes of some bytes (`None` when they are not UTF-8).
pub uninterp spec fn utf8_decoded(bytes: Seq<u8>) -> Option<Seq<char>>;

pub open spec fn opt_bytes(o: Option<Vec<u8>>) -> Option<Seq<u8>> {
    match o {
        Some(v) => Some(v@),
        None => None,
    }
}

/// Reads all of `bytes` through `xz2::read::XzDecoder`; named by [`xz_decoded`].
#[verifier::external_body]
fn xz_decode(bytes: &[u8]) -> (r: Option<Vec<u8>>)
    ensures
        opt_bytes(r) == xz_decoded(bytes@),
{
    let mut out = Vec::new();
    match xz2::read::XzDecoder::new(bytes).read_to_end(&mut out) {
        Ok(_) => Some(out),
        Err(_) => None,
    }
}

/// Reads all of `bytes` through `flate2::read::GzDecoder`; named by [`gz_decoded`].
#[verifier::external_body]
pub(crate) fn gz_decode(bytes: &[u8]) -> (r: Option<Vec<u8>>)
    ensures
        opt_bytes(r) == gz_decoded(bytes@),
{
    let mut out = Vec::new();
    match flate2::read::GzDecoder::new(bytes).read_to_end(&mut out) {
        Ok(_) => Some(out),
        Err(_) => None,
    }
}

/// Reads all of `bytes` through `zstd::stream::read::Decoder`; named by
/// [`zstd_decoded`].
#[verifier::external_body]
pub(crate) fn zstd_decode(bytes: &[u8]) -> (r: Option<Vec<u8>>)
    ensures
        opt_bytes(r) == zstd_decoded(bytes@),
{
    let mut out = Vec::new();
    match zstd::stream::read::Decoder::new(bytes) {
        Ok(mut d) => match d.read_to_end(&mut out) {
            Ok(_) => Some(out),
            Err(_) => None,
        },
        Err(_) => None,
    }
}

/// Compresses `bytes` with `zstd::stream::encode_all` at level 3; named by
/// [`zstd_encoded`].
#[verifier::external_body]
pub(crate) fn zstd_encode(bytes: &[u8]) -> (r: Option<Vec<u8>>)
    ensures
        opt_bytes(r) == zstd_encoded(bytes@),
{
    zstd::stream::encode_all(bytes, 3).ok()
}

pub open spec fn entries_view(v: Seq<(String, Vec<u8>)>) -> Seq<(Seq<char>, Seq<u8>)> {
    v.map_values(|e: (String, Vec<u8>)| (e.0@, e.1@))
}

pub open spec fn members_view(v: Seq<(Vec<u8>, Vec<u8>)>) -> Seq<(Seq<u8>, Seq<u8>)> {
    v.map_values(|e: (Vec<u8>, Vec<u8>)| (e.0@, e.1@))
}

/// Lists the entries of a tar archive with `tar::Archive::entries`, each one's
/// `path()` and contents; named by [`tar_entries`].
#[verifier::external_body]
pub(crate) fn tar_list(bytes: &[u8]) -> (r: Option<Vec<(String, Vec<u8>)>>)
    ensures
        match r {
            Some(v) => tar_entries(bytes@) == Some(entries_view(v@)),
            None => tar_entries(bytes@).is_none(),
        },
{
    let mut archive = tar::Archive::new(bytes);
    let mut out = Vec::new();
    for entry in archive.entries().ok()? {
        let mut e = entry.ok()?;
        let path = e.path().ok()?.to_string_lossy().to_string();
        let mut data = Vec::new();
        e.read_to_end(&mut data).ok()?;
        out.push((path, data));
    }
    Some(out)
}

/// Lists the members of an `ar` archive with `ar::Archive::next_entry`, each
/// one's identifier and contents; named by [`ar_members`]. The crate slices its
/// name table at the number in a GNU `/N` name unchecked, so only archives whose
/// `/N` names stay inside the table (see [`ar_names_resolvable`]) are read.
#[verifier::external_body]
fn ar_list(bytes: &[u8]) -> (r: Option<Vec<(Vec<u8>, Vec<u8>)>>)
    requires
        ar_names_resolvable(bytes@),
    ensures
        match r {
            Some(v) => ar_members(bytes@) == Some(members_view(v@)),
            None => ar_members(bytes@).is_none(),
        },
{
    let mut archive = ar::Archive::new(bytes);
    let mut out = Vec::new();
    while let Some(entry) = archive.next_entry() {
        let mut e = entry.ok()?;
        let id = e.header().identifier().to_vec();
        let mut data = Vec::new();
        e.read_to_end(&mut data).ok()?;
        out.push((id, data));
    }
    Some(out)
}

/// Decodes UTF-8 with std `String::from_utf8`; named by [`utf8_decoded`].
#[verifier::external_body]
pub(crate) fn utf8_decode(bytes: &[u8]) -> (r: Option<String>)
    ensures
        opt_view(r) == utf8_decoded(bytes@),
{
    String::from_utf8(bytes.to_vec()).ok()
}


/// The bytes of a member once decompressed with its codec.
pub open spec fn decoded(c: Codec, bytes: Seq<u8>) -> Option<Seq<u8>> {
    match c {
        Codec::Xz => xz_decoded(bytes),
        Codec::Gz => gz_decoded(bytes),
        Codec::Zstd => zstd_decoded(bytes),
        Codec::Plain => Some(bytes),
    }
}

fn copy_bytes(b: &[u8]) -> (r: Vec<u8>)
    ensures
        r@ == b@,
{
    let mut r: Vec<u8> = Vec::new();
    let mut i: usize = 0;
    while i < b.len()
        invariant
            i <= b.len(),
            r@ == b@.take(i as int),
        decreases b.len() - i,
    {
        r.push(b[i]);
        assert(b@.take(i + 1) == b@.take(i as int).push(b@[i as int]));
        i = i + 1;
    }
    assert(b@.take(i as int) == b@);
    r
}

fn decode(c: Codec, bytes: &[u8]) -> (r: Option<Vec<u8>>)
    ensures
        opt_bytes(r) == decoded(c, bytes@),
{
    match c {
        Codec::Xz => xz_decode(bytes),
        Codec::Gz => gz_decode(bytes),
        Codec::Zstd => zstd_decode(bytes),
        Codec::Plain => Some(copy_bytes(bytes)),
    }
}

/// The fields of a `control` file.
#[verifier::ext_equal]
pub struct ControlV {
    pub name: Seq<char>,
    pub version: Seq<char>,
    pub architecture: Seq<char>,
    pub description: Seq<char>,
}

/// One line of a `control` file: `Package`, `Version`, `Architecture` and
/// `Description` set their field (the last one wins).
pub open spec fn control_step(st: ControlV, l: Seq<char>) -> ControlV {
    if starts_with(l, "Package: "@) {
        ControlV { name: trim(l.skip(9)), ..st }
    } else if starts_with(l, "Version: "@) {
        ControlV { version: trim(l.skip(9)), ..st }
    } else if starts_with(l, "Architecture: "@) {
        ControlV { architecture: trim(l.skip(14)), ..st }
    } else if starts_with(l, "Description: "@) {
        ControlV { description: trim(l.skip(13)), ..st }
    } else {
        st
    }
}

pub open spec fn control_scan(st: ControlV, ls: Seq<Seq<char>>) -> ControlV
    decreases ls.len(),
{
    if ls.len() == 0 {
        st
    } else {
        control_step(control_scan(st, ls.drop_last()), ls.last())
    }
}

/// A tar entry that is the `control` file (its last path component).
pub open spec fn is_control_path(p: Seq<char>) -> bool {
    path_parts(p).len() > 0 && path_parts(p).last() == "control"@
}

/// The control fields after reading the entries in order: each `control` entry
/// (as UTF-8) updates them; `None` when an entry is not UTF-8.
pub open spec fn control_entries(st: ControlV, es: Seq<(Seq<char>, Seq<u8>)>) -> Option<ControlV>
    decreases es.len(),
{
    if es.len() == 0 {
        Some(st)
    } else {
        match control_entries(st, es.drop_last()) {
            Some(s) => if is_control_path(es.last().0) {
                match utf8_decoded(es.last().1) {
                    Some(text) => Some(control_scan(s, lines(text))),
                    None => None,
                }
            } else {
                Some(s)
            },
            None => None,
        }
    }
}

/// The control fields of a `control.tar*` member, starting from empty fields.
pub open spec fn spec_control(data: Seq<u8>, filename: Seq<char>) -> Option<ControlV> {
    match decoded(spec_control_codec(filename), data) {
        Some(raw) => match tar_entries(raw) {
            Some(es) => control_entries(
                ControlV { name: seq![], version: seq![], architecture: seq![], description: seq![] },
                es,
            ),
            None => None,
        },
        None => None,
    }
}

fn field(l: &[char], n: usize) -> (r: Vec<char>)
    requires
        n <= l.len(),
    ensures
        r@ == trim(l@.skip(n as int)),
{
    let rest = crate::text::slice_chars(l, n, l.len());
    assert(rest@ == l@.skip(n as int));
    trim_chars(&rest)
}

/// Applies the lines of a `control` file to the fields.
fn apply_control(f: &mut (Vec<char>, Vec<char>, Vec<char>, Vec<char>), text: &str)
    ensures
        (ControlV { name: final(f).0@, version: final(f).1@, architecture: final(f).2@, description: final(f).3@ })
            == control_scan(
            ControlV { name: old(f).0@, version: old(f).1@, architecture: old(f).2@, description: old(f).3@ },
            lines(text@),
        ),
{
    let ls = lines_of(&chars_of(text));
    let ghost sl = lines(text@);
    let ghost st0 = ControlV { name: f.0@, version: f.1@, architecture: f.2@, description: f.3@ };
    let mut i: usize = 0;
    assert(sl.take(0) =~= Seq::<Seq<char>>::empty());
    while i < ls.len()
        invariant
            i <= ls.len(),
            sl == vecs_view(ls@),
            sl == lines(text@),
            (ControlV { name: f.0@, version: f.1@, architecture: f.2@, description: f.3@ }) == control_scan(
                st0,
                sl.take(i as int),
            ),
        decreases ls.len() - i,
    {
        assert(sl.take(i + 1).drop_last() == sl.take(i as int));
        assert(sl.take(i + 1).last() == ls@[i as int]@);
        proof {
            reveal_strlit("Package: ");
            reveal_strlit("Version: ");
            reveal_strlit("Architecture: ");
            reveal_strlit("Description: ");
        }
        let l = &ls[i];
        if starts_with_str(l, "Package: ") {
            f.0 = field(l, 9);
        } else if starts_with_str(l, "Version: ") {
            f.1 = field(l, 9);
        } else if starts_with_str(l, "Architecture: ") {
            f.2 = field(l, 14);
        } else if starts_with_str(l, "Description: ") {
            f.3 = field(l, 13);
        }
        i = i + 1;
    }
    assert(sl.take(i as int) == sl);
}

fn is_control_entry(p: &str) -> (b: bool)
    ensures
        b == is_control_path(p@),
{
    let parts = path_parts_of(&chars_of(p));
    parts.len() > 0 && eq_str(&parts[parts.len() - 1], "control")
}

impl DebHunter {
    /// The name, version, architecture and description in the `control` file of
    /// a `control.tar*` member named `filename`; an error when the member cannot
    /// be decompressed or read.
    pub fn parse_control_tar(data: &[u8], filename: &str) -> (r: Result<(String, String, String, String), DebError>)
        ensures
            match spec_control(data@, filename@) {
                Some(c) => r matches Ok((n, v, a, d)) && n@ == c.name && v@ == c.version && a@ == c.architecture
                    && d@ == c.description,
                None => r == Err::<(String, String, String, String), DebError>(DebError::UnreadableMember),
            },
    {
        let codec = Self::control_codec(filename);
        let raw = match decode(codec, data) {
            Some(r) => r,
            None => {
                return Err(DebError::UnreadableMember);
            },
        };
        let es = match tar_list(&raw) {
            Some(e) => e,
            None => {
                return Err(DebError::UnreadableMember);
            },
        };
        Self::control_from_entries(&es)
    }

    /// The name, version, architecture and description after reading the
    /// `control` files among the entries of a control archive (path and contents,
    /// in order); an error when one of them is not UTF-8.
    pub fn control_from_entries(es: &Vec<(String, Vec<u8>)>) -> (r: Result<(String, String, String, String), DebError>)
        ensures
            match control_entries(
                ControlV { name: seq![], version: seq![], architecture: seq![], description: seq![] },
                entries_view(es@),
            ) {
                Some(c) => r matches Ok((n, v, a, d)) && n@ == c.name && v@ == c.version && a@ == c.architecture
                    && d@ == c.description,
                None => r == Err::<(String, String, String, String), DebError>(DebError::UnreadableMember),
            },
    {
        let ghost ev = entries_view(es@);
        let ghost st0 = ControlV { name: seq![], version: seq![], architecture: seq![], description: seq![] };
        let mut f: (Vec<char>, Vec<char>, Vec<char>, Vec<char>) = (Vec::new(), Vec::new(), Vec::new(), Vec::new());
        let mut i: usize = 0;
        assert(ev.take(0) =~= Seq::<(Seq<char>, Seq<u8>)>::empty());
        while i < es.len()
            invariant
                i <= es.len(),
                ev == entries_view(es@),
                control_entries(st0, ev.take(i as int)) == Some(
                    ControlV { name: f.0@, version: f.1@, architecture: f.2@, description: f.3@ },
                ),
                st0 == (ControlV { name: seq![], version: seq![], architecture: seq![], description: seq![] }),
            decreases es.len() - i,
        {
            assert(ev.take(i + 1).drop_last() == ev.take(i as int));
            assert(ev.take(i + 1).last() == (es@[i as int].0@, es@[i as int].1@));
            if is_control_entry(es[i].0.as_str()) {
                match utf8_decode(es[i].1.as_slice()) {
                    Some(text) => {
                        apply_control(&mut f, text.as_str());
                    },
                    None => {
                        assert(control_entries(st0, ev.take(i + 1)).is_none());
                        assert(forall|k: int| i + 1 <= k <= ev.len() ==> control_entries(st0, #[trigger] ev.take(k)).is_none()) by {
                            assert forall|k: int| i + 1 <= k <= ev.len() implies control_entries(st0, #[trigger] ev.take(k)).is_none() by {
                                lemma_control_entries_none(st0, ev, i + 1, k);
                            }
                        }
                        assert(ev.take(ev.len() as int) == ev);
                        return Err(DebError::UnreadableMember);
                    },
                }
            }
            i = i + 1;
        }
        assert(ev.take(i as int) == ev);
        Ok((string_of(&f.0), string_of(&f.1), string_of(&f.2), string_of(&f.3)))
    }
}

proof fn lemma_control_entries_none(st: ControlV, es: Seq<(Seq<char>, Seq<u8>)>, i: int, k: int)
    requires
        0 <= i <= k <= es.len(),
        control_entries(st, es.take(i)).is_none(),
    ensures
        control_entries(st, es.take(k)).is_none(),
    decreases k - i,
{
    if k > i {
        lemma_control_entries_none(st, es, i, k - 1);
        assert(es.take(k).drop_last() == es.take(k - 1));
    }
}

/// A member of a `.deb`, by its trimmed name.
#[derive(Debug, Clone, Copy, PartialEq, Eq, Structural)]
pub enum DebMember {
    Control,
    Data,
    Other,
}

/// The kind of an `ar` member of a `.deb`, by its trimmed name.
pub fn member_kind(clean_name: &str) -> (k: DebMember)
    ensures
        k == if starts_with(clean_name@, "control.tar"@) {
            DebMember::Control
        } else if starts_with(clean_name@, "data.tar"@) {
            DebMember::Data
        } else {
            DebMember::Other
        },
{
    let n = chars_of(clean_name);
    if starts_with_str(&n, "control.tar") {
        DebMember::Control
    } else if starts_with_str(&n, "data.tar") {
        DebMember::Data
    } else {
        DebMember::Other
    }
}

pub open spec fn clean_members_view(v: Seq<(String, Vec<u8>)>) -> Seq<(Seq<char>, Seq<u8>)> {
    v.map_values(|e: (String, Vec<u8>)| (e.0@, e.1@))
}

// ----------------------------------------------------------------------------
// The member headers of an `ar` archive
// ----------------------------------------------------------------------------

/// `b` is an ASCII digit.
pub open spec fn is_digit_byte(b: u8) -> bool {
    0x30 <= b && b <= 0x39
}

/// A byte that may follow the digits of a number field: ASCII white space, or
/// a byte of a multi-byte UTF-8 character (such as a Unicode space).
pub open spec fn is_field_tail(b: u8) -> bool {
    (0x09 <= b && b <= 0x0d) || b == 0x20 || b >= 0x80
}

/// How many ASCII digits `f` begins with.
pub open spec fn lead_digits(f: Seq<u8>) -> nat
    decreases f.len(),
{
    if f.len() > 0 && is_digit_byte(f[0]) {
        1 + lead_digits(f.drop_first())
    } else {
        0
    }
}

/// The number that a run of ASCII digits writes in decimal.
pub open spec fn digits_value(d: Seq<u8>) -> nat
    decreases d.len(),
{
    if d.len() == 0 {
        0
    } else {
        digits_value(d.drop_last()) * 10 + (d.last() - 0x30) as nat
    }
}

/// A field without its leading `+`, if it has one.
pub open spec fn unsigned_part(f: Seq<u8>) -> Seq<u8> {
    if f.len() > 0 && f[0] == 0x2b {
        f.skip(1)
    } else {
        f
    }
}

/// The number in a header field: an optional `+`, one or more ASCII digits,
/// then only [`is_field_tail`] bytes. Every field that `ar` reads as a number
/// (UTF-8 text that, without its trailing white space, `u64::from_str_radix`
/// takes) has this form and this value.
pub open spec fn number_field(f: Seq<u8>) -> Option<nat> {
    let g = unsigned_part(f);
    let n = lead_digits(g);
    if 1 <= n && forall|i: int| n <= i < g.len() ==> is_field_tail(#[trigger] g[i]) {
        Some(digits_value(g.take(n as int)))
    } else {
        None
    }
}

/// How `ar` has told the archive's form so far.
#[derive(Debug, Clone, Copy, PartialEq, Eq, Structural)]
pub enum ArVariant {
    Common,
    Gnu,
    Bsd,
}

/// The length of the name field of the header at `p`, its first `k` bytes
/// considered, without trailing spaces.
pub open spec fn name_len(b: Seq<u8>, p: int, k: int) -> int
    decreases k,
{
    if k > 0 && b[p + k - 1] == 0x20 {
        name_len(b, p, k - 1)
    } else {
        k
    }
}

/// What reading the header at `p` does.
pub enum HeaderVerdict {
    /// `ar` slices its name table past its end and panics.
    Panics,
    /// `ar` reports an error, or reads nothing further.
    Stops,
    /// The next header starts `step` bytes after this header's end, with the
    /// form and name-table length given.
    Next(nat, ArVariant, nat),
}

/// The header at `p` as `ar::Archive::next_entry` reads it: the name (without
/// trailing spaces) in bytes 0 to 16 and the size in bytes 48 to 58. A GNU name
/// `/` (symbol table), `//` (name table, whose size sets the table's length) or
/// `/N` (the name at offset `N` of the table, which `ar` slices unchecked); a
/// GNU name ending in `/`; a BSD name `#1/L` whose `L` bytes follow the header
/// and count in the size. The data is padded to an even length.
pub open spec fn ar_header_verdict(b: Seq<u8>, p: int, v: ArVariant, table: nat) -> HeaderVerdict {
    match number_field(b.subrange(p + 48, p + 58)) {
        None => HeaderVerdict::Stops,
        Some(size) => {
            let n = name_len(b, p, 16);
            if v != ArVariant::Bsd && n > 0 && b[p] == 0x2f {
                if n == 1 {
                    HeaderVerdict::Next(size + size % 2, ArVariant::Gnu, table)
                } else if n == 2 && b[p + 1] == 0x2f {
                    HeaderVerdict::Next(size + size % 2, ArVariant::Gnu, (size as usize) as nat)
                } else {
                    match number_field(b.subrange(p + 1, p + 16)) {
                        None => HeaderVerdict::Stops,
                        Some(start) => if (start as usize) > table {
                            HeaderVerdict::Panics
                        } else {
                            HeaderVerdict::Next(size + size % 2, ArVariant::Gnu, table)
                        },
                    }
                }
            } else if v != ArVariant::Bsd && n > 0 && b[p + n - 1] == 0x2f {
                HeaderVerdict::Next(size + size % 2, ArVariant::Gnu, table)
            } else if v != ArVariant::Gnu && n >= 3 && b[p] == 0x23 && b[p + 1] == 0x31 && b[p + 2] == 0x2f {
                match number_field(b.subrange(p + 3, p + 16)) {
                    None => HeaderVerdict::Stops,
                    Some(pad) => if size < pad {
                        HeaderVerdict::Stops
                    } else {
                        HeaderVerdict::Next(size + ((size - pad) as nat) % 2, ArVariant::Bsd, table)
                    },
                }
            } else {
                HeaderVerdict::Next(size + size % 2, v, table)
            }
        },
    }
}

/// Reading the headers from the one at `p` on never reaches a GNU `/N` name
/// that points past the end of the name table. The walk ends where no whole
/// header is left or where `ar` stops.
pub open spec fn ar_safe_from(b: Seq<u8>, p: int, v: ArVariant, table: nat) -> bool
    decreases b.len() - p,
{
    if p < 0 || p + 60 > b.len() {
        true
    } else {
        match ar_header_verdict(b, p, v, table) {
            HeaderVerdict::Panics => false,
            HeaderVerdict::Stops => true,
            HeaderVerdict::Next(step, v2, t2) => {
                let q = p + 60 + step;
                if q >= b.len() {
                    true
                } else {
                    ar_safe_from(b, q, v2, t2)
                }
            },
        }
    }
}

/// Reading an `ar` archive (after its 8-byte global header) never reaches a GNU
/// `/N` name outside the name table.
pub open spec fn ar_names_resolvable(b: Seq<u8>) -> bool {
    ar_safe_from(b, 8, ArVariant::Common, 0)
}

/// `10^n`.
pub open spec fn pow10(n: nat) -> nat
    decreases n,
{
    if n == 0 {
        1
    } else {
        10 * pow10((n - 1) as nat)
    }
}

proof fn lemma_pow10_mono(i: nat, j: nat)
    requires
        i <= j,
    ensures
        pow10(i) <= pow10(j),
    decreases j - i,
{
    if i < j {
        lemma_pow10_mono(i, (j - 1) as nat);
    }
}

/// A field whose first `i` bytes are digits and whose byte `i` (if any) is not
/// begins with exactly `i` digits.
proof fn lemma_lead_digits(f: Seq<u8>, i: int)
    requires
        0 <= i <= f.len(),
        forall|j: int| 0 <= j < i ==> is_digit_byte(#[trigger] f[j]),
        i == f.len() || !is_digit_byte(f[i]),
    ensures
        lead_digits(f) == i,
    decreases i,
{
    if i > 0 {
        lemma_lead_digits(f.drop_first(), i - 1);
    }
}

/// Reads the number field `b[at..at + len]` (see [`number_field`]).
fn number_field_at(b: &[u8], at: usize, len: usize) -> (r: Option<u64>)
    requires
        1 <= len <= 15,
        at + len <= b.len(),
    ensures
        match r {
            Some(n) => number_field(b@.subrange(at as int, at + len)) == Some(n as nat),
            None => number_field(b@.subrange(at as int, at + len)).is_none(),
        },
        r matches Some(n) ==> n < 1_000_000_000_000_000,
{
    let ghost f = b@.subrange(at as int, at + len);
    let s: usize = if b[at] == 0x2b { 1 } else { 0 };
    assert(f[0] == b[at as int]);
    let ghost g = f.skip(s as int);
    let mut i: usize = 0;
    let mut val: u64 = 0;
    proof {
        reveal_with_fuel(pow10, 16);
        assert(pow10(15) == 1_000_000_000_000_000);
        assert(g.take(0) =~= Seq::<u8>::empty());
    }
    while s + i < len && 0x30 <= b[at + s + i] && b[at + s + i] <= 0x39
        invariant
            1 <= len <= 15,
            at + len <= b.len(),
            s <= 1,
            s == (if b[at as int] == 0x2b { 1usize } else { 0usize }),
            f == b@.subrange(at as int, at + len),
            g == f.skip(s as int),
            s + i <= len,
            forall|j: int| 0 <= j < i ==> is_digit_byte(#[trigger] g[j]),
            val == digits_value(g.take(i as int)),
            val < pow10(i as nat),
            pow10(15) == 1_000_000_000_000_000,
        decreases len - s - i,
    {
        proof {
            lemma_pow10_mono((i + 1) as nat, 15);
            assert(g.take(i + 1).drop_last() =~= g.take(i as int));
            assert(g[i as int] == b[at + s + i]);
        }
        val = val * 10 + (b[at + s + i] - 0x30) as u64;
        i = i + 1;
    }
    proof {
        if s + i < len {
            assert(g[i as int] == b[at + s + i]);
        }
        lemma_lead_digits(g, i as int);
        lemma_pow10_mono(i as nat, 15);
    }
    if i == 0 {
        return None;
    }
    let mut k: usize = s + i;
    while k < len
        invariant
            at + len <= b.len(),
            s <= 1,
            s == (if b[at as int] == 0x2b { 1usize } else { 0usize }),
            f == b@.subrange(at as int, at + len),
            g == f.skip(s as int),
            1 <= i,
            s + i <= k <= len,
            forall|j: int| i <= j < k - s ==> is_field_tail(#[trigger] g[j]),
            lead_digits(g) == i,
            val == digits_value(g.take(i as int)),
            val < 1_000_000_000_000_000,
        decreases len - k,
    {
        let c = b[at + k];
        assert(g.len() == len - s);
        assert(g[k - s] == c);
        if !((0x09 <= c && c <= 0x0d) || c == 0x20 || c >= 0x80) {
            assert(!is_field_tail(g[k - s]));
            assert(f[0] == b[at as int]);
            assert(unsigned_part(f) == g);
            return None;
        }
        k = k + 1;
    }
    assert(f[0] == b[at as int]);
    assert(unsigned_part(f) == g);
    assert(g.len() == len - s);
    Some(val)
}

/// The length of the name field of the header at `p` without trailing spaces.
fn name_len_at(b: &[u8], p: usize) -> (n: usize)
    requires
        p + 16 <= b.len(),
    ensures
        n as int == name_len(b@, p as int, 16),
        n <= 16,
{
    let mut k: usize = 16;
    while k > 0 && b[p + k - 1] == 0x20
        invariant
            p + 16 <= b.len(),
            k <= 16,
            name_len(b@, p as int, 16) == name_len(b@, p as int, k as int),
        decreases k,
    {
        k = k - 1;
    }
    k
}

/// Whether reading an `ar` archive stays inside its GNU name table (see
/// [`ar_names_resolvable`]).
pub fn check_ar_names(b: &[u8]) -> (ok: bool)
    ensures
        ok == ar_names_resolvable(b@),
{
    if b.len() < 68 {
        return true;
    }
    let mut p: usize = 8;
    let mut v = ArVariant::Common;
    let mut table: usize = 0;
    while p <= b.len() - 60
        invariant
            8 <= p <= b.len(),
            b.len() >= 68,
            ar_names_resolvable(b@) == ar_safe_from(b@, p as int, v, table as nat),
        decreases b.len() - p,
    {
        let size = match number_field_at(b, p + 48, 10) {
            Some(s) => s,
            None => {
                return true;
            },
        };
        let n = name_len_at(b, p);
        let step: u64;
        let nv: ArVariant;
        let nt: usize;
        if v != ArVariant::Bsd && n > 0 && b[p] == 0x2f {
            if n == 1 {
                step = size + size % 2;
                nv = ArVariant::Gnu;
                nt = table;
            } else if n == 2 && b[p + 1] == 0x2f {
                step = size + size % 2;
                nv = ArVariant::Gnu;
                nt = #[verifier::truncate] (size as usize);
            } else {
                match number_field_at(b, p + 1, 15) {
                    None => {
                        return true;
                    },
                    Some(start) => {
                        let at: usize = #[verifier::truncate] (start as usize);
                        if at > table {
                            return false;
                        }
                        step = size + size % 2;
                        nv = ArVariant::Gnu;
                        nt = table;
                    },
                }
            }
        } else if v != ArVariant::Bsd && n > 0 && b[p + n - 1] == 0x2f {
            step = size + size % 2;
            nv = ArVariant::Gnu;
            nt = table;
        } else if v != ArVariant::Gnu && n >= 3 && b[p] == 0x23 && b[p + 1] == 0x31 && b[p + 2] == 0x2f {
            match number_field_at(b, p + 3, 13) {
                None => {
                    return true;
                },
                Some(pad) => {
                    if size < pad {
                        return true;
                    }
                    step = size + (size - pad) % 2;
                    nv = ArVariant::Bsd;
                    nt = table;
                },
            }
        } else {
            step = size + size % 2;
            nv = v;
            nt = table;
        }
        assert(ar_header_verdict(b@, p as int, v, table as nat) == HeaderVerdict::Next(step as nat, nv, nt as nat));
        let rest: usize = b.len() - p - 60;
        if step >= rest as u64 {
            return true;
        }
        p = p + 60 + step as usize;
        v = nv;
        table = nt;
    }
    true
}

/// The members of a `.deb` (its bytes): each one's name, lossily decoded and
/// trimmed, and contents; an error when the archive is corrupted, or when one
/// of its GNU `/N` names points outside its name table.
pub fn deb_members(deb: &[u8]) -> (r: Result<Vec<(String, Vec<u8>)>, DebError>)
    ensures
        !ar_names_resolvable(deb@) ==> r == Err::<Vec<(String, Vec<u8>)>, DebError>(DebError::CorruptArchive),
        ar_names_resolvable(deb@) ==> match ar_members(deb@) {
            Some(ms) => r matches Ok(v) && clean_members_view(v@) == ms.map_values(
                |m: (Seq<u8>, Seq<u8>)| (trim(utf8_lossy(m.0)), m.1),
            ),
            None => r == Err::<Vec<(String, Vec<u8>)>, DebError>(DebError::CorruptArchive),
        },
{
    if !check_ar_names(deb) {
        return Err(DebError::CorruptArchive);
    }
    let ms = match ar_list(deb) {
        Some(m) => m,
        None => {
            return Err(DebError::CorruptArchive);
        },
    };
    Ok(clean_members(&ms))
}

/// The members of an `ar` archive (identifier and contents) with each name
/// lossily decoded and trimmed.
pub fn clean_members(ms: &Vec<(Vec<u8>, Vec<u8>)>) -> (r: Vec<(String, Vec<u8>)>)
    ensures
        clean_members_view(r@) == members_view(ms@).map_values(
            |m: (Seq<u8>, Seq<u8>)| (trim(utf8_lossy(m.0)), m.1),
        ),
{
    let ghost mv = members_view(ms@);
    let mut out: Vec<(String, Vec<u8>)> = Vec::new();
    let mut i: usize = 0;
    while i < ms.len()
        invariant
            i <= ms.len(),
            mv == members_view(ms@),
            clean_members_view(out@) == mv.take(i as int).map_values(
                |m: (Seq<u8>, Seq<u8>)| (trim(utf8_lossy(m.0)), m.1),
            ),
        decreases ms.len() - i,
    {
        let name = crate::elf_scan::from_utf8_lossy(ms[i].0.as_slice());
        let t = trim_chars(&chars_of(name.as_str()));
        let ghost b = clean_members_view(out@);
        out.push((string_of(&t), ms[i].1.clone()));
        assert(clean_members_view(out@) == b.push((t@, ms@[i as int].1@)));
        assert(mv.take(i + 1).map_values(|m: (Seq<u8>, Seq<u8>)| (trim(utf8_lossy(m.0)), m.1)) == mv.take(
            i as int,
        ).map_values(|m: (Seq<u8>, Seq<u8>)| (trim(utf8_lossy(m.0)), m.1)).push(
            (trim(utf8_lossy(mv[i as int].0)), mv[i as int].1),
        ));
        i = i + 1;
    }
    assert(mv.take(i as int) == mv);
    out
}

/// The name, version and architecture read from a `.deb` file stem
/// `name_version_arch` when its control file names no package.
pub open spec fn spec_deb_stem(stem: Seq<char>) -> (Seq<char>, Seq<char>, Seq<char>) {
    let parts = split(stem, '_');
    (
        parts[0],
        if parts.len() > 1 { parts[1] } else { "1.0.0"@ },
        if parts.len() > 2 { parts[2] } else { "x86_64"@ },
    )
}

/// The name, version and architecture read from a `.deb` file stem.
pub fn deb_name_from_stem(stem: &str) -> (r: (String, String, String))
    ensures
        (r.0@, r.1@, r.2@) == spec_deb_stem(stem@),
{
    let parts = split_chars(&chars_of(stem), '_');
    proof {
        crate::text::lemma_find_from_bounds(stem@, '_', 0);
    }
    let ghost pv = vecs_view(parts@);
    assert(pv.len() > 0);
    assert(pv[0] == parts@[0]@);
    let n = string_of(&parts[0]);
    let v = if parts.len() > 1 {
        assert(pv[1] == parts@[1]@);
        string_of(&parts[1])
    } else {
        String::from_str("1.0.0")
    };
    let a = if parts.len() > 2 {
        assert(pv[2] == parts@[2]@);
        string_of(&parts[2])
    } else {
        String::from_str("x86_64")
    };
    (n, v, a)
}

} // verus!
