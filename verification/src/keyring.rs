//! The pacman GPG keyring: reading `gpg --with-colons` listings, the keyring
//! package files and the GnuPG configuration the engine maintains.

use vstd::prelude::*;
use crate::config::{join_rel, join_rel_exec, opt_view, strings_view, PacmanConfig};
use crate::micro_repo::{trim_end_matches, trim_end_matches_chars};
use crate::text::{
    append, append_str, chars_of, contains, contains_str, decimal, ends_with, ends_with_chars, ends_with_str,
    eq_chars, eq_str, lines, lines_of, parse_i64, parse_i64_chars, parse_u32, parse_u32_chars,
    slice_chars, split, split_chars, starts_with, starts_with_str, string_of, trim, trim_chars,
    vecs_view, zero_pad, zero_padded,
};

verus! {

/// How far a key is trusted, as GnuPG reports it.
#[derive(Debug, Clone, Copy, PartialEq, Eq, Structural)]
pub enum KeyValidity {
    Ultimate,
    Full,
    Marginal,
    Expired,
    Revoked,
    Disabled,
    Invalid,
    Unknown,
}

/// One public key of the keyring.
#[derive(Debug, Clone)]
pub struct GpgKey {
    pub key_id: String,
    pub fingerprint: String,
    pub key_type: String,
    pub key_length: u32,
    pub validity: KeyValidity,
    pub created: Option<String>,
    pub expires: Option<String>,
    pub uids: Vec<String>,
    pub is_master: bool,
}

/// The plain contents of a [`GpgKey`].
#[verifier::ext_equal]
pub struct KeyV {
    pub key_id: Seq<char>,
    pub fingerprint: Seq<char>,
    pub key_type: Seq<char>,
    pub key_length: u32,
    pub validity: KeyValidity,
    pub created: Option<Seq<char>>,
    pub expires: Option<Seq<char>>,
    pub uids: Seq<Seq<char>>,
    pub is_master: bool,
}

impl View for GpgKey {
    type V = KeyV;

    open spec fn view(&self) -> KeyV {
        KeyV {
            key_id: self.key_id@,
            fingerprint: self.fingerprint@,
            key_type: self.key_type@,
            key_length: self.key_length,
            validity: self.validity,
            created: opt_view(self.created),
            expires: opt_view(self.expires),
            uids: strings_view(self.uids@),
            is_master: self.is_master,
        }
    }
}

pub open spec fn keys_view(ks: Seq<GpgKey>) -> Seq<KeyV> {
    ks.map_values(|k: GpgKey| k@)
}

// ----------------------------------------------------------------------------
// Fingerprints and dates
// ----------------------------------------------------------------------------

/// An ASCII letter or digit.
pub open spec fn is_ascii_alnum(c: char) -> bool {
    ('0' <= c && c <= '9') || ('a' <= c && c <= 'z') || ('A' <= c && c <= 'Z')
}

/// The ASCII letters and digits of `s`, in order.
pub open spec fn alnum_only(s: Seq<char>) -> Seq<char>
    decreases s.len(),
{
    if s.len() == 0 {
        s
    } else if is_ascii_alnum(s.last()) {
        alnum_only(s.drop_last()).push(s.last())
    } else {
        alnum_only(s.drop_last())
    }
}

/// The first `k` groups of four characters of `c`, separated by one space, with two
/// spaces before the sixth group.
pub open spec fn fingerprint_groups(c: Seq<char>, k: nat) -> Seq<char>
    decreases k,
{
    if k == 0 {
        seq![]
    } else {
        let sep: Seq<char> = if k == 1 { seq![] } else if k == 6 { "  "@ } else { " "@ };
        fingerprint_groups(c, (k - 1) as nat) + sep + c.subrange(4 * (k - 1), (4 * k) as int)
    }
}

/// A 40-character fingerprint (counting its ASCII letters and digits) in ten groups
/// of four; any other text unchanged.
pub open spec fn spec_format_fingerprint(fpr: Seq<char>) -> Seq<char> {
    let clean = alnum_only(fpr);
    if clean.len() == 40 {
        fingerprint_groups(clean, 10)
    } else {
        fpr
    }
}

/// Writes a fingerprint in the groups of four GnuPG prints.
pub fn format_fingerprint(fpr: &str) -> (r: String)
    ensures
        r@ == spec_format_fingerprint(fpr@),
{
    let v = chars_of(fpr);
    let mut clean: Vec<char> = Vec::new();
    let mut i: usize = 0;
    while i < v.len()
        invariant
            i <= v.len(),
            v@ == fpr@,
            clean@ == alnum_only(v@.take(i as int)),
        decreases v.len() - i,
    {
        assert(v@.take(i + 1).drop_last() == v@.take(i as int));
        let c = v[i];
        if ('0' <= c && c <= '9') || ('a' <= c && c <= 'z') || ('A' <= c && c <= 'Z') {
            clean.push(c);
        }
        i = i + 1;
    }
    assert(v@.take(i as int) == v@);
    if clean.len() != 40 {
        return string_of(&v);
    }
    let mut out: Vec<char> = Vec::new();
    let mut k: usize = 0;
    while k < 10
        invariant
            k <= 10,
            clean@.len() == 40,
            out@ == fingerprint_groups(clean@, k as nat),
        decreases 10 - k,
    {
        proof {
            reveal_strlit("  ");
            reveal_strlit(" ");
        }
        if k == 5 {
            out.push(' ');
            out.push(' ');
        } else if k > 0 {
            out.push(' ');
        }
        let g = slice_chars(&clean, 4 * k, 4 * k + 4);
        append(&mut out, &g);
        proof {
            let sep: Seq<char> = if k == 0 { seq![] } else if k == 5 { "  "@ } else { " "@ };
            assert(out@ == fingerprint_groups(clean@, k as nat) + sep + clean@.subrange(
                4 * k,
                4 * k + 4,
            ));
        }
        k = k + 1;
    }
    string_of(&out)
}

/// A year of the Gregorian calendar with 366 days.
pub open spec fn is_leap_year(y: int) -> bool {
    (y % 4 == 0 && y % 100 != 0) || y % 400 == 0
}

pub open spec fn year_length(y: int) -> int {
    if is_leap_year(y) { 366 } else { 365 }
}

/// The year and the day within it that lie `days` days after the start of `year`.
pub open spec fn year_and_day(days: int, year: int) -> (int, int)
    decreases days,
{
    if days >= year_length(year) {
        year_and_day(days - year_length(year), year + 1)
    } else {
        (year, days)
    }
}

/// The lengths of the months of `y`.
pub open spec fn month_lengths(y: int) -> Seq<int> {
    seq![31, if is_leap_year(y) { 29 } else { 28 }, 31, 30, 31, 30, 31, 31, 30, 31, 30, 31]
}

/// The month (counting from `month`) and the day within it for day `days` of a
/// year whose remaining months have the lengths `ms`.
pub open spec fn month_and_day(days: int, ms: Seq<int>, month: int) -> (int, int)
    decreases ms.len(),
{
    if ms.len() > 0 && days >= ms[0] {
        month_and_day(days - ms[0], ms.drop_first(), month + 1)
    } else {
        (month, days)
    }
}

/// The UTC date `YYYY-MM-DD` of a positive Unix timestamp given as text.
pub open spec fn spec_format_unix_timestamp(ts: Seq<char>) -> Option<Seq<char>> {
    match parse_i64(ts) {
        Some(secs) => if secs > 0 {
            let (y, d) = year_and_day(secs / 86400, 1970);
            let (m, dm) = month_and_day(d, month_lengths(y), 1);
            Some(
                zero_pad(decimal(y as nat), 4) + "-"@ + zero_pad(decimal(m as nat), 2) + "-"@
                    + zero_pad(decimal((dm + 1) as nat), 2),
            )
        } else {
            None
        },
        None => None,
    }
}

/// The number of days of year `y`.
fn year_days(y: u64) -> (n: u64)
    ensures
        n == year_length(y as int),
{
    if (y % 4 == 0 && y % 100 != 0) || y % 400 == 0 {
        366
    } else {
        365
    }
}

/// The UTC date of a positive Unix timestamp, as `YYYY-MM-DD`; `None` when the
/// text is not a number or not positive.
pub fn format_unix_timestamp(ts: &str) -> (r: Option<String>)
    ensures
        match r {
            Some(s) => spec_format_unix_timestamp(ts@) == Some(s@),
            None => spec_format_unix_timestamp(ts@).is_none(),
        },
{
    let v = chars_of(ts);
    let secs = match parse_i64_chars(&v) {
        Some(s) => s,
        None => {
            return None;
        },
    };
    if secs <= 0 {
        return None;
    }
    let days0: u64 = (secs as u64) / 86400;
    let mut days: u64 = days0;
    let mut year: u64 = 1970;
    while days >= year_days(year)
        invariant
            year >= 1970,
            year + days <= 1970 + days0,
            days0 <= 0x7fff_ffff_ffff_ffffu64 / 86400,
            year_and_day(days0 as int, 1970) == year_and_day(days as int, year as int),
        decreases days,
    {
        let diy: u64 = year_days(year);
        days = days - diy;
        year = year + 1;
    }
    let leap = (year % 4 == 0 && year % 100 != 0) || year % 400 == 0;
    assert(leap == is_leap_year(year as int));
    let ms: [u64; 12] = [31, if leap { 29 } else { 28 }, 31, 30, 31, 30, 31, 31, 30, 31, 30, 31];
    let ghost ml = month_lengths(year as int);
    assert(ms@.map_values(|x: u64| x as int) =~= ml);
    let ghost d_year = days as int;
    assert(ml.skip(0) == ml);
    let mut month: u64 = 1;
    let mut k: usize = 0;
    while k < 12 && days >= ms[k]
        invariant
            k <= 12,
            month == k + 1,
            days <= d_year,
            ms@.map_values(|x: u64| x as int) == ml,
            month_and_day(d_year, ml, 1) == month_and_day(days as int, ml.skip(k as int), month as int),
        decreases 12 - k,
    {
        assert(ml.skip(k as int)[0] == ms@[k as int]);
        assert(ml.skip(k as int).drop_first() == ml.skip(k + 1));
        days = days - ms[k];
        month = month + 1;
        k = k + 1;
    }
    proof {
        if k < 12 {
            assert(ml.skip(k as int)[0] == ms@[k as int]);
        } else {
            assert(ml.skip(12).len() == 0);
        }
        assert(month_and_day(days as int, ml.skip(k as int), month as int) == (month as int, days as int));
        assert(secs / 86400 == days0);
        reveal_strlit("-");
    }
    let mut out = zero_padded(year, 4);
    out.push('-');
    let mm = zero_padded(month, 2);
    append(&mut out, &mm);
    out.push('-');
    let dd = zero_padded(days + 1, 2);
    append(&mut out, &dd);
    Some(string_of(&out))
}

// ----------------------------------------------------------------------------
// `gpg --with-colons` listings
// ----------------------------------------------------------------------------

/// Field `i` of a colon-separated record, or the empty text when it has fewer fields.
pub open spec fn part(ps: Seq<Seq<char>>, i: int) -> Seq<char> {
    if 0 <= i < ps.len() {
        ps[i]
    } else {
        seq![]
    }
}

/// The validity a `pub` record gives a key: field 2 read as GnuPG's validity
/// letter, overridden by a `D` (disabled) among the key's flags (field 12).
pub open spec fn spec_validity(code: Seq<char>, flags: Seq<char>) -> KeyValidity {
    if contains(flags, "D"@) {
        KeyValidity::Disabled
    } else if code == "u"@ {
        KeyValidity::Ultimate
    } else if code == "f"@ {
        KeyValidity::Full
    } else if code == "m"@ {
        KeyValidity::Marginal
    } else if code == "e"@ {
        KeyValidity::Expired
    } else if code == "r"@ {
        KeyValidity::Revoked
    } else if code == "d"@ {
        KeyValidity::Disabled
    } else if code == "i"@ {
        KeyValidity::Invalid
    } else {
        KeyValidity::Unknown
    }
}

/// The algorithm name for an OpenPGP public-key algorithm number.
pub open spec fn spec_key_type(algo: Seq<char>) -> Seq<char> {
    if algo == "1"@ {
        "rsa"@
    } else if algo == "17"@ {
        "dsa"@
    } else if algo == "18"@ {
        "ecdh"@
    } else if algo == "19"@ {
        "ecdsa"@
    } else if algo == "22"@ {
        "ed25519"@
    } else {
        "pub"@
    }
}

/// The key a `pub` record starts.
pub open spec fn new_key(ps: Seq<Seq<char>>) -> KeyV {
    KeyV {
        key_id: part(ps, 4),
        fingerprint: seq![],
        key_type: spec_key_type(part(ps, 3)),
        key_length: match parse_u32(part(ps, 2)) {
            Some(n) => n,
            None => 0,
        },
        validity: spec_validity(part(ps, 1), part(ps, 11)),
        created: spec_format_unix_timestamp(part(ps, 5)),
        expires: spec_format_unix_timestamp(part(ps, 6)),
        uids: seq![],
        is_master: false,
    }
}

/// A user id that names the local master signing key.
pub open spec fn is_master_uid(uid: Seq<char>) -> bool {
    contains(uid, "pacman@localhost"@) || contains(uid, "Pacman Keyring Master Key"@)
}

/// The keys read so far and the key being read.
#[verifier::ext_equal]
pub struct ListingV {
    pub keys: Seq<KeyV>,
    pub current: Option<KeyV>,
}

/// One record of a key listing: `pub` starts a key, the first `fpr` gives its
/// fingerprint, each non-empty `uid` adds a user id; other records are ignored.
pub open spec fn listing_step(st: ListingV, line: Seq<char>) -> ListingV {
    let ps = split(line, ':');
    let tag = part(ps, 0);
    if tag == "pub"@ {
        ListingV {
            keys: match st.current {
                Some(k) => st.keys.push(k),
                None => st.keys,
            },
            current: Some(new_key(ps)),
        }
    } else if tag == "fpr"@ {
        match st.current {
            Some(k) => if k.fingerprint.len() == 0 && 9 < ps.len() {
                ListingV { current: Some(KeyV { fingerprint: ps[9], ..k }), ..st }
            } else {
                st
            },
            None => st,
        }
    } else if tag == "uid"@ {
        match st.current {
            Some(k) => if 9 < ps.len() && ps[9].len() > 0 {
                ListingV {
                    current: Some(
                        KeyV {
                            uids: k.uids.push(ps[9]),
                            is_master: k.is_master || is_master_uid(ps[9]),
                            ..k
                        },
                    ),
                    ..st
                }
            } else {
                st
            },
            None => st,
        }
    } else {
        st
    }
}

pub open spec fn listing_scan(ls: Seq<Seq<char>>) -> ListingV
    decreases ls.len(),
{
    if ls.len() == 0 {
        ListingV { keys: seq![], current: None }
    } else {
        listing_step(listing_scan(ls.drop_last()), ls.last())
    }
}

/// The keys of a `gpg --list-keys --with-colons` listing, in order.
pub open spec fn spec_key_listing(out: Seq<char>) -> Seq<KeyV> {
    let st = listing_scan(lines(out));
    match st.current {
        Some(k) => st.keys.push(k),
        None => st.keys,
    }
}

pub open spec fn opt_key_view(o: Option<GpgKey>) -> Option<KeyV> {
    match o {
        Some(k) => Some(k@),
        None => None,
    }
}

/// Field `i` of a record, or the empty text.
fn field(ps: &Vec<Vec<char>>, i: usize) -> (r: Vec<char>)
    ensures
        r@ == part(vecs_view(ps@), i as int),
{
    if i < ps.len() {
        let r = slice_chars(&ps[i], 0, ps[i].len());
        assert(ps@[i as int]@.subrange(0, ps@[i as int]@.len() as int) == ps@[i as int]@);
        r
    } else {
        Vec::new()
    }
}

fn validity_of(code: &[char], flags: &[char]) -> (v: KeyValidity)
    ensures
        v == spec_validity(code@, flags@),
{
    if contains_str(flags, "D") {
        KeyValidity::Disabled
    } else if eq_str(code, "u") {
        KeyValidity::Ultimate
    } else if eq_str(code, "f") {
        KeyValidity::Full
    } else if eq_str(code, "m") {
        KeyValidity::Marginal
    } else if eq_str(code, "e") {
        KeyValidity::Expired
    } else if eq_str(code, "r") {
        KeyValidity::Revoked
    } else if eq_str(code, "d") {
        KeyValidity::Disabled
    } else if eq_str(code, "i") {
        KeyValidity::Invalid
    } else {
        KeyValidity::Unknown
    }
}

fn key_type_of(algo: &[char]) -> (t: String)
    ensures
        t@ == spec_key_type(algo@),
{
    if eq_str(algo, "1") {
        String::from_str("rsa")
    } else if eq_str(algo, "17") {
        String::from_str("dsa")
    } else if eq_str(algo, "18") {
        String::from_str("ecdh")
    } else if eq_str(algo, "19") {
        String::from_str("ecdsa")
    } else if eq_str(algo, "22") {
        String::from_str("ed25519")
    } else {
        String::from_str("pub")
    }
}

fn make_key(ps: &Vec<Vec<char>>) -> (k: GpgKey)
    ensures
        k@ == new_key(vecs_view(ps@)),
{
    let len_field = field(ps, 2);
    let key_length: u32 = match parse_u32_chars(&len_field) {
        Some(n) => n,
        None => 0,
    };
    let algo = field(ps, 3);
    let code = field(ps, 1);
    let flags = field(ps, 11);
    let id = field(ps, 4);
    let c = field(ps, 5);
    let e = field(ps, 6);
    let cs = string_of(&c);
    let es = string_of(&e);
    let k = GpgKey {
        key_id: string_of(&id),
        fingerprint: String::new(),
        key_type: key_type_of(&algo),
        key_length,
        validity: validity_of(&code, &flags),
        created: format_unix_timestamp(cs.as_str()),
        expires: format_unix_timestamp(es.as_str()),
        uids: Vec::new(),
        is_master: false,
    };
    assert(k@ =~= new_key(vecs_view(ps@)));
    k
}

/// Reads the keys of a `gpg --list-keys --with-colons` listing.
pub fn parse_key_listing(out: &str) -> (keys: Vec<GpgKey>)
    ensures
        keys_view(keys@) == spec_key_listing(out@),
{
    let v = chars_of(out);
    let ls = lines_of(&v);
    let ghost sl = vecs_view(ls@);
    let mut keys: Vec<GpgKey> = Vec::new();
    let mut current: Option<GpgKey> = None;
    let mut i: usize = 0;
    assert(sl.take(0) =~= Seq::<Seq<char>>::empty());
    while i < ls.len()
        invariant
            i <= ls.len(),
            sl == vecs_view(ls@),
            sl == lines(out@),
            (ListingV { keys: keys_view(keys@), current: opt_key_view(current) }) == listing_scan(
                sl.take(i as int),
            ),
        decreases ls.len() - i,
    {
        assert(sl.take(i + 1).drop_last() == sl.take(i as int));
        assert(sl.take(i + 1).last() == ls@[i as int]@);
        let ghost st = listing_scan(sl.take(i as int));
        let ps = split_chars(&ls[i], ':');
        let ghost pv = vecs_view(ps@);
        let tag = field(&ps, 0);
        if eq_str(&tag, "pub") {
            let nk = make_key(&ps);
            match current {
                Some(k) => {
                    let ghost before = keys_view(keys@);
                    keys.push(k);
                    assert(keys_view(keys@) == before.push(k@));
                },
                None => {},
            }
            current = Some(nk);
            assert((ListingV { keys: keys_view(keys@), current: opt_key_view(current) })
                =~= listing_step(st, ls@[i as int]@));
        } else if eq_str(&tag, "fpr") {
            match current {
                Some(k) => {
                    let mut k = k;
                    if k.fingerprint.as_str().is_empty() && ps.len() > 9 {
                        k.fingerprint = string_of(&ps[9]);
                        assert(k@ =~= KeyV { fingerprint: pv[9], ..st.current.unwrap() });
                    }
                    current = Some(k);
                },
                None => {
                    current = None;
                },
            }
            assert((ListingV { keys: keys_view(keys@), current: opt_key_view(current) })
                =~= listing_step(st, ls@[i as int]@));
        } else if eq_str(&tag, "uid") {
            match current {
                Some(k) => {
                    let mut k = k;
                    if ps.len() > 9 && ps[9].len() > 0 {
                        let uid = string_of(&ps[9]);
                        let master = contains_str(&ps[9], "pacman@localhost") || contains_str(
                            &ps[9],
                            "Pacman Keyring Master Key",
                        );
                        let ghost old_uids = strings_view(k.uids@);
                        k.uids.push(uid);
                        assert(strings_view(k.uids@) == old_uids.push(pv[9]));
                        k.is_master = k.is_master || master;
                        assert(k@ =~= KeyV {
                            uids: st.current.unwrap().uids.push(pv[9]),
                            is_master: st.current.unwrap().is_master || is_master_uid(pv[9]),
                            ..st.current.unwrap()
                        });
                    }
                    current = Some(k);
                },
                None => {
                    current = None;
                },
            }
            assert((ListingV { keys: keys_view(keys@), current: opt_key_view(current) })
                =~= listing_step(st, ls@[i as int]@));
        }
        i = i + 1;
    }
    assert(sl.take(i as int) == sl);
    match current {
        Some(k) => {
            let ghost before = keys_view(keys@);
            keys.push(k);
            assert(keys_view(keys@) == before.push(k@));
        },
        None => {},
    }
    keys
}

/// The fingerprint of the first `fpr` record of a secret-key listing that has one.
pub open spec fn first_fingerprint(ls: Seq<Seq<char>>) -> Option<Seq<char>>
    decreases ls.len(),
{
    if ls.len() == 0 {
        None
    } else {
        let ps = split(ls[0], ':');
        if ps.len() > 9 && ps[0] == "fpr"@ && ps[9].len() > 0 {
            Some(ps[9])
        } else {
            first_fingerprint(ls.drop_first())
        }
    }
}

/// The master key's fingerprint in a `gpg --list-secret-keys --with-colons` listing.
pub fn master_key_fingerprint(out: &str) -> (r: Option<String>)
    ensures
        match r {
            Some(f) => first_fingerprint(lines(out@)) == Some(f@),
            None => first_fingerprint(lines(out@)).is_none(),
        },
{
    let v = chars_of(out);
    let ls = lines_of(&v);
    let ghost sl = vecs_view(ls@);
    let mut i: usize = 0;
    assert(sl.skip(0) == sl);
    while i < ls.len()
        invariant
            i <= ls.len(),
            sl == vecs_view(ls@),
            first_fingerprint(lines(out@)) == first_fingerprint(sl.skip(i as int)),
        decreases ls.len() - i,
    {
        assert(sl.skip(i as int)[0] == ls@[i as int]@);
        assert(sl.skip(i as int).drop_first() == sl.skip(i + 1));
        let ps = split_chars(&ls[i], ':');
        if ps.len() > 9 && eq_str(&ps[0], "fpr") && ps[9].len() > 0 {
            assert(vecs_view(ps@)[9] == ps@[9]@);
            return Some(string_of(&ps[9]));
        }
        i = i + 1;
    }
    assert(sl.skip(i as int).len() == 0);
    None
}

/// A secret-key listing that has a `sec` record.
pub open spec fn spec_has_secret_key(out: Seq<char>) -> bool {
    exists|k: int| 0 <= k < lines(out).len() && starts_with(#[trigger] lines(out)[k], "sec:"@)
}

/// Whether a `gpg -K --with-colons` listing shows a secret key.
pub fn has_secret_key_in(out: &str) -> (b: bool)
    ensures
        b == spec_has_secret_key(out@),
{
    let v = chars_of(out);
    let ls = lines_of(&v);
    let ghost sl = lines(out@);
    let mut i: usize = 0;
    while i < ls.len()
        invariant
            i <= ls.len(),
            sl == vecs_view(ls@),
            sl == lines(out@),
            forall|k: int| 0 <= k < i ==> !starts_with(#[trigger] sl[k], "sec:"@),
        decreases ls.len() - i,
    {
        assert(sl[i as int] == ls@[i as int]@);
        if starts_with_str(&ls[i], "sec:") {
            return true;
        }
        i = i + 1;
    }
    false
}

/// A good signature (`sig` record with `!`) whose signing key id is the master
/// fingerprint or a suffix of it.
pub open spec fn is_master_signature(line: Seq<char>, master: Seq<char>) -> bool {
    let ps = split(line, ':');
    ps.len() > 4 && ps[0] == "sig"@ && ps[1] == "!"@ && (ends_with(master, ps[4]) || ps[4] == master)
}

/// Whether a `gpg --check-signatures --with-colons` listing shows a good signature
/// by the master key.
pub fn is_signed_by_master(out: &str, master_fpr: &str) -> (b: bool)
    ensures
        b == exists|k: int|
            0 <= k < lines(out@).len() && is_master_signature(#[trigger] lines(out@)[k], master_fpr@),
{
    let v = chars_of(out);
    let m = chars_of(master_fpr);
    let ls = lines_of(&v);
    let ghost sl = lines(out@);
    let mut i: usize = 0;
    while i < ls.len()
        invariant
            i <= ls.len(),
            sl == vecs_view(ls@),
            sl == lines(out@),
            m@ == master_fpr@,
            forall|k: int| 0 <= k < i ==> !is_master_signature(#[trigger] sl[k], master_fpr@),
        decreases ls.len() - i,
    {
        assert(sl[i as int] == ls@[i as int]@);
        let ps = split_chars(&ls[i], ':');
        let ghost pv = vecs_view(ps@);
        if ps.len() > 4 && eq_str(&ps[0], "sig") && eq_str(&ps[1], "!") {
            assert(pv[4] == ps@[4]@);
            if ends_with_chars(&m, &ps[4]) || eq_chars(&ps[4], &m) {
                return true;
            }
        }
        i = i + 1;
    }
    false
}

/// A `pub` record whose flags (field 12) hold `D`.
pub open spec fn is_disabled_record(line: Seq<char>) -> bool {
    let ps = split(line, ':');
    ps.len() > 11 && ps[0] == "pub"@ && contains(ps[11], "D"@)
}

/// Whether a `gpg --list-key --with-colons` listing shows the key disabled.
pub fn is_disabled_in(out: &str) -> (b: bool)
    ensures
        b == exists|k: int| 0 <= k < lines(out@).len() && is_disabled_record(#[trigger] lines(out@)[k]),
{
    let v = chars_of(out);
    let ls = lines_of(&v);
    let ghost sl = lines(out@);
    let mut i: usize = 0;
    while i < ls.len()
        invariant
            i <= ls.len(),
            sl == vecs_view(ls@),
            sl == lines(out@),
            forall|k: int| 0 <= k < i ==> !is_disabled_record(#[trigger] sl[k]),
        decreases ls.len() - i,
    {
        assert(sl[i as int] == ls@[i as int]@);
        let ps = split_chars(&ls[i], ':');
        let ghost pv = vecs_view(ps@);
        if ps.len() > 11 && eq_str(&ps[0], "pub") {
            assert(pv[11] == ps@[11]@);
            if contains_str(&ps[11], "D") {
                return true;
            }
        }
        i = i + 1;
    }
    false
}

// ----------------------------------------------------------------------------
// Keyring package files
// ----------------------------------------------------------------------------

/// The fingerprint a line of a `<keyring>-trusted` file names: the trimmed text
/// before its first `:`, for lines that are neither blank nor comments.
pub open spec fn trusted_entry(line: Seq<char>) -> Option<Seq<char>> {
    let t = trim(line);
    if t.len() == 0 || t[0] == '#' {
        None
    } else {
        let f = trim(split(t, ':')[0]);
        if f.len() == 0 { None } else { Some(f) }
    }
}

/// The fingerprint a line of a `<keyring>-revoked` file names.
pub open spec fn revoked_entry(line: Seq<char>) -> Option<Seq<char>> {
    let t = trim(line);
    if t.len() == 0 || t[0] == '#' { None } else { Some(t) }
}

/// The entries of the lines, in order.
pub open spec fn entries(ls: Seq<Seq<char>>, trusted: bool) -> Seq<Seq<char>>
    decreases ls.len(),
{
    if ls.len() == 0 {
        seq![]
    } else {
        let rest = entries(ls.drop_last(), trusted);
        match (if trusted { trusted_entry(ls.last()) } else { revoked_entry(ls.last()) }) {
            Some(f) => rest.push(f),
            None => rest,
        }
    }
}

proof fn lemma_split_nonempty(s: Seq<char>, c: char)
    ensures
        split(s, c).len() > 0,
{
    crate::text::lemma_find_from_bounds(s, c, 0);
}

/// The fingerprints named by a `<keyring>-trusted` (`trusted`) or
/// `<keyring>-revoked` file.
pub fn keyring_file_entries(content: &str, trusted: bool) -> (r: Vec<String>)
    ensures
        strings_view(r@) == entries(lines(content@), trusted),
{
    let v = chars_of(content);
    let ls = lines_of(&v);
    let ghost sl = lines(content@);
    let mut r: Vec<String> = Vec::new();
    let mut i: usize = 0;
    assert(sl.take(0) =~= Seq::<Seq<char>>::empty());
    while i < ls.len()
        invariant
            i <= ls.len(),
            sl == vecs_view(ls@),
            sl == lines(content@),
            strings_view(r@) == entries(sl.take(i as int), trusted),
        decreases ls.len() - i,
    {
        assert(sl.take(i + 1).drop_last() == sl.take(i as int));
        assert(sl.take(i + 1).last() == ls@[i as int]@);
        let t = trim_chars(&ls[i]);
        if t.len() > 0 && t[0] != '#' {
            let f: Vec<char> = if trusted {
                let ps = split_chars(&t, ':');
                proof {
                    lemma_split_nonempty(t@, ':');
                }
                assert(vecs_view(ps@)[0] == ps@[0]@);
                trim_chars(&ps[0])
            } else {
                slice_chars(&t, 0, t.len())
            };
            assert(t@.subrange(0, t@.len() as int) == t@);
            if f.len() > 0 {
                let ghost before = strings_view(r@);
                r.push(string_of(&f));
                assert(strings_view(r@) == before.push(f@));
            }
        }
        i = i + 1;
    }
    assert(sl.take(i as int) == sl);
    r
}

// ----------------------------------------------------------------------------
// GnuPG configuration
// ----------------------------------------------------------------------------

/// Some line of `content`, trimmed, is `opt`.
pub open spec fn has_option_line(content: Seq<char>, opt: Seq<char>) -> bool {
    exists|k: int| 0 <= k < lines(content).len() && trim(#[trigger] lines(content)[k]) == opt
}

/// `content` with each option it lacks appended on a line of its own, in order,
/// and whether anything was appended.
pub open spec fn add_options(content: Seq<char>, opts: Seq<Seq<char>>) -> (Seq<char>, bool)
    decreases opts.len(),
{
    if opts.len() == 0 {
        (content, false)
    } else {
        let (c, changed) = add_options(content, opts.drop_last());
        if has_option_line(c, opts.last()) {
            (c, changed)
        } else {
            (c + opts.last() + "\n"@, true)
        }
    }
}

/// The options the engine requires in `gpg.conf`.
pub open spec fn required_gpg_options() -> Seq<Seq<char>> {
    seq![
        "no-greeting"@,
        "no-permission-warning"@,
        "keyserver-options timeout=10"@,
        "keyserver-options import-clean"@,
        "keyserver-options no-self-sigs-only"@,
    ]
}

/// Whether some line of `v`, trimmed, is `opt`.
fn has_option(v: &[char], opt: &str) -> (b: bool)
    ensures
        b == has_option_line(v@, opt@),
{
    let ls = lines_of(v);
    let ghost sl = lines(v@);
    let mut i: usize = 0;
    while i < ls.len()
        invariant
            i <= ls.len(),
            sl == vecs_view(ls@),
            sl == lines(v@),
            forall|k: int| 0 <= k < i ==> trim(#[trigger] sl[k]) != opt@,
        decreases ls.len() - i,
    {
        assert(sl[i as int] == ls@[i as int]@);
        let t = trim_chars(&ls[i]);
        if eq_str(&t, opt) {
            return true;
        }
        i = i + 1;
    }
    false
}

/// `gpg.conf` completed with the options the engine requires, and whether
/// anything had to be added.
pub fn complete_gpg_conf(content: &str) -> (r: (String, bool))
    ensures
        (r.0@, r.1) == add_options(content@, required_gpg_options()),
{
    let opts: [&str; 5] = [
        "no-greeting",
        "no-permission-warning",
        "keyserver-options timeout=10",
        "keyserver-options import-clean",
        "keyserver-options no-self-sigs-only",
    ];
    let ghost ro = required_gpg_options();
    assert(opts@.map_values(|o: &str| o@) =~= ro);
    let mut c = chars_of(content);
    let mut changed = false;
    let mut k: usize = 0;
    assert(ro.take(0) =~= Seq::<Seq<char>>::empty());
    while k < 5
        invariant
            k <= 5,
            opts@.map_values(|o: &str| o@) == ro,
            ro == required_gpg_options(),
            (c@, changed) == add_options(content@, ro.take(k as int)),
        decreases 5 - k,
    {
        assert(ro.take(k + 1).drop_last() == ro.take(k as int));
        assert(ro.take(k + 1).last() == opts@[k as int]@);
        if !has_option(&c, opts[k]) {
            append_str(&mut c, opts[k]);
            c.push('\n');
            proof {
                reveal_strlit("\n");
            }
            changed = true;
        }
        k = k + 1;
    }
    assert(ro.take(5) == ro);
    (string_of(&c), changed)
}

/// `gpg-agent.conf` with `disable-scdaemon` added when no line says so, or `None`
/// when it already does.
pub fn complete_agent_conf(content: &str) -> (r: Option<String>)
    ensures
        match r {
            Some(s) => !has_option_line(content@, "disable-scdaemon"@) && s@ == content@
                + "disable-scdaemon\n"@,
            None => has_option_line(content@, "disable-scdaemon"@),
        },
{
    let mut c = chars_of(content);
    if has_option(&c, "disable-scdaemon") {
        None
    } else {
        append_str(&mut c, "disable-scdaemon\n");
        Some(string_of(&c))
    }
}

// ----------------------------------------------------------------------------
// Keys to refresh and summary counts
// ----------------------------------------------------------------------------

/// The key is the local master key: its fingerprint is the master fingerprint
/// when that is known, else it carries a master user id.
pub open spec fn is_master_key(k: KeyV, master: Option<Seq<char>>) -> bool {
    match master {
        Some(m) => k.fingerprint == m,
        None => k.is_master,
    }
}

/// The fingerprints of the keys that are not the master key, in order.
pub open spec fn refresh_list(ks: Seq<KeyV>, master: Option<Seq<char>>) -> Seq<Seq<char>>
    decreases ks.len(),
{
    if ks.len() == 0 {
        seq![]
    } else {
        let rest = refresh_list(ks.drop_last(), master);
        if is_master_key(ks.last(), master) { rest } else { rest.push(ks.last().fingerprint) }
    }
}

/// The fingerprints of the keys to refresh from the keyserver: all but the master key.
pub fn refresh_candidates(keys: &[GpgKey], master_fpr: Option<&str>) -> (r: Vec<String>)
    ensures
        strings_view(r@) == refresh_list(keys_view(keys@), match master_fpr {
            Some(m) => Some(m@),
            None => None,
        }),
{
    let ghost mv = match master_fpr {
        Some(m) => Some(m@),
        None => None::<Seq<char>>,
    };
    let ghost kv = keys_view(keys@);
    let mut r: Vec<String> = Vec::new();
    let mut i: usize = 0;
    assert(kv.take(0) =~= Seq::<KeyV>::empty());
    while i < keys.len()
        invariant
            i <= keys.len(),
            kv == keys_view(keys@),
            mv == (match master_fpr {
                Some(m) => Some(m@),
                None => None::<Seq<char>>,
            }),
            strings_view(r@) == refresh_list(kv.take(i as int), mv),
        decreases keys.len() - i,
    {
        assert(kv.take(i + 1).drop_last() == kv.take(i as int));
        assert(kv.take(i + 1).last() == keys@[i as int]@);
        let is_master = match master_fpr {
            Some(m) => {
                let f = chars_of(keys[i].fingerprint.as_str());
                eq_str(&f, m)
            },
            None => keys[i].is_master,
        };
        if !is_master {
            let ghost before = strings_view(r@);
            r.push(keys[i].fingerprint.clone());
            assert(strings_view(r@) == before.push(keys@[i as int].fingerprint@));
        }
        i = i + 1;
    }
    assert(kv.take(i as int) == kv);
    r
}

/// Trusted keys (ultimate or full validity).
pub open spec fn is_trusted(v: KeyValidity) -> bool {
    v == KeyValidity::Ultimate || v == KeyValidity::Full
}

/// Revoked or disabled keys.
pub open spec fn is_revoked(v: KeyValidity) -> bool {
    v == KeyValidity::Revoked || v == KeyValidity::Disabled
}

pub open spec fn count_keys(ks: Seq<KeyV>, trusted: bool) -> nat
    decreases ks.len(),
{
    if ks.len() == 0 {
        0
    } else {
        let v = ks.last().validity;
        count_keys(ks.drop_last(), trusted) + if (if trusted { is_trusted(v) } else { is_revoked(v) }) {
            1nat
        } else {
            0nat
        }
    }
}

proof fn lemma_count_le(ks: Seq<KeyV>, trusted: bool)
    ensures
        count_keys(ks, trusted) <= ks.len(),
    decreases ks.len(),
{
    if ks.len() > 0 {
        lemma_count_le(ks.drop_last(), trusted);
    }
}

/// How many keys are trusted and how many revoked or disabled.
pub fn key_counts(keys: &[GpgKey]) -> (r: (usize, usize))
    ensures
        r.0 == count_keys(keys_view(keys@), true),
        r.1 == count_keys(keys_view(keys@), false),
{
    let ghost kv = keys_view(keys@);
    let mut t: usize = 0;
    let mut rv: usize = 0;
    let mut i: usize = 0;
    while i < keys.len()
        invariant
            i <= keys.len(),
            kv == keys_view(keys@),
            t == count_keys(kv.take(i as int), true),
            rv == count_keys(kv.take(i as int), false),
        decreases keys.len() - i,
    {
        assert(kv.take(i + 1).drop_last() == kv.take(i as int));
        assert(kv.take(i + 1).last() == keys@[i as int]@);
        proof {
            lemma_count_le(kv.take(i as int), true);
            lemma_count_le(kv.take(i as int), false);
        }
        let v = keys[i].validity;
        if v == KeyValidity::Ultimate || v == KeyValidity::Full {
            t = t + 1;
        }
        if v == KeyValidity::Revoked || v == KeyValidity::Disabled {
            rv = rv + 1;
        }
        i = i + 1;
    }
    assert(kv.take(i as int) == kv);
    (t, rv)
}

/// The badge a key listing shows for a validity.
pub fn validity_badge(v: KeyValidity) -> (s: &'static str)
    ensures
        s@ == (match v {
            KeyValidity::Ultimate => "[ Ultimate ]"@,
            KeyValidity::Full => "[ Trusted  ]"@,
            KeyValidity::Marginal => "[ Marginal ]"@,
            KeyValidity::Expired => "[ Expired  ]"@,
            KeyValidity::Revoked => "[ Revoked  ]"@,
            KeyValidity::Disabled => "[ Disabled ]"@,
            KeyValidity::Invalid => "[ Invalid  ]"@,
            KeyValidity::Unknown => "[ Unknown  ]"@,
        }),
{
    match v {
        KeyValidity::Ultimate => "[ Ultimate ]",
        KeyValidity::Full => "[ Trusted  ]",
        KeyValidity::Marginal => "[ Marginal ]",
        KeyValidity::Expired => "[ Expired  ]",
        KeyValidity::Revoked => "[ Revoked  ]",
        KeyValidity::Disabled => "[ Disabled ]",
        KeyValidity::Invalid => "[ Invalid  ]",
        KeyValidity::Unknown => "[ Unknown  ]",
    }
}

// ----------------------------------------------------------------------------
// Choosing the keyrings to populate
// ----------------------------------------------------------------------------

/// `a` comes no later than `b` in the order of strings: character by character
/// by code point (the order of their UTF-8 bytes), a prefix first.
pub open spec fn name_le(a: Seq<char>, b: Seq<char>) -> bool
    decreases a.len(),
{
    if a.len() == 0 {
        true
    } else if b.len() == 0 {
        false
    } else if a[0] != b[0] {
        a[0] < b[0]
    } else {
        name_le(a.drop_first(), b.drop_first())
    }
}

/// Where `x` goes among the names `t`: before the first one it comes no later than.
pub open spec fn insert_pos(t: Seq<Seq<char>>, x: Seq<char>) -> int
    decreases t.len(),
{
    if t.len() == 0 {
        0
    } else if name_le(x, t[0]) {
        0
    } else {
        1 + insert_pos(t.drop_first(), x)
    }
}

/// The names in string order, each one put into place in turn.
pub open spec fn sorted_names(s: Seq<Seq<char>>) -> Seq<Seq<char>>
    decreases s.len(),
{
    if s.len() == 0 {
        s
    } else {
        let t = sorted_names(s.drop_last());
        let p = insert_pos(t, s.last());
        t.take(p) + seq![s.last()] + t.skip(p)
    }
}

/// The keyring names of a directory listing (`(name, is a regular file)`): each
/// regular file ending in `.gpg`, with every trailing `.gpg` removed, in listing order.
pub open spec fn gpg_stems(es: Seq<(Seq<char>, bool)>) -> Seq<Seq<char>>
    decreases es.len(),
{
    if es.len() == 0 {
        seq![]
    } else {
        let rest = gpg_stems(es.drop_last());
        let e = es.last();
        if e.1 && ends_with(e.0, ".gpg"@) {
            rest.push(trim_end_matches(e.0, ".gpg"@))
        } else {
            rest
        }
    }
}

/// The requested keyring `i` has its `.gpg` file (as the caller found on disk).
pub open spec fn has_keyring_file(present: Seq<bool>, i: int) -> bool {
    0 <= i < present.len() && present[i]
}

/// The first requested name, from the `i`-th on, without a `.gpg` file.
pub open spec fn first_missing_from(req: Seq<Seq<char>>, present: Seq<bool>, i: int) -> Option<Seq<char>>
    decreases req.len() - i,
{
    if i < 0 || i >= req.len() {
        None
    } else if !has_keyring_file(present, i) {
        Some(req[i])
    } else {
        first_missing_from(req, present, i + 1)
    }
}

/// Why no keyrings could be chosen.
#[derive(Debug, Clone, PartialEq, Eq)]
pub enum KeyringChoiceError {
    /// A requested keyring has no `.gpg` file.
    Missing(String),
    /// The directory holds no `.gpg` file.
    NoneFound,
}

/// The keyrings to populate: the requested ones when there are any, every one
/// of which must have its `.gpg` file (`present`, one flag per requested name);
/// otherwise the names of the listing's `.gpg` files in string order, of which
/// there must be one.
pub open spec fn spec_select_keyrings(req: Seq<Seq<char>>, present: Seq<bool>, es: Seq<(Seq<char>, bool)>) -> Result<
    Seq<Seq<char>>,
    Option<Seq<char>>,
> {
    if req.len() > 0 {
        match first_missing_from(req, present, 0) {
            Some(n) => Err(Some(n)),
            None => Ok(req),
        }
    } else {
        let found = sorted_names(gpg_stems(es));
        if found.len() == 0 {
            Err(None)
        } else {
            Ok(found)
        }
    }
}

pub open spec fn entries_view(es: Seq<(String, bool)>) -> Seq<(Seq<char>, bool)> {
    es.map_values(|e: (String, bool)| (e.0@, e.1))
}

pub open spec fn choice_view(r: Result<Vec<String>, KeyringChoiceError>) -> Result<
    Seq<Seq<char>>,
    Option<Seq<char>>,
> {
    match r {
        Ok(v) => Ok(strings_view(v@)),
        Err(KeyringChoiceError::Missing(n)) => Err(Some(n@)),
        Err(KeyringChoiceError::NoneFound) => Err(None),
    }
}

/// Whether `a` comes no later than `b` in string order.
fn name_le_exec(a: &[char], b: &[char]) -> (r: bool)
    ensures
        r == name_le(a@, b@),
{
    let mut k: usize = 0;
    assert(a@.skip(0) =~= a@);
    assert(b@.skip(0) =~= b@);
    while k < a.len() && k < b.len() && a[k] == b[k]
        invariant
            k <= a.len(),
            k <= b.len(),
            name_le(a@, b@) == name_le(a@.skip(k as int), b@.skip(k as int)),
        decreases a.len() - k,
    {
        assert(a@.skip(k as int).drop_first() =~= a@.skip(k + 1));
        assert(b@.skip(k as int).drop_first() =~= b@.skip(k + 1));
        k = k + 1;
    }
    if k == a.len() {
        true
    } else if k == b.len() {
        false
    } else {
        assert(a@.skip(k as int)[0] == a[k as int]);
        assert(b@.skip(k as int)[0] == b[k as int]);
        a[k] < b[k]
    }
}

/// The names in string order (see [`sorted_names`]).
pub fn sort_names(v: &Vec<Vec<char>>) -> (r: Vec<Vec<char>>)
    ensures
        vecs_view(r@) == sorted_names(vecs_view(v@)),
{
    let ghost vv = vecs_view(v@);
    let mut out: Vec<Vec<char>> = Vec::new();
    let mut i: usize = 0;
    assert(vv.take(0) =~= Seq::<Seq<char>>::empty());
    while i < v.len()
        invariant
            i <= v.len(),
            vv == vecs_view(v@),
            vecs_view(out@) == sorted_names(vv.take(i as int)),
        decreases v.len() - i,
    {
        let ghost t = vecs_view(out@);
        let x = &v[i];
        let mut p: usize = 0;
        assert(t.skip(0) =~= t);
        while p < out.len() && !name_le_exec(x, &out[p])
            invariant
                p <= out.len(),
                t == vecs_view(out@),
                insert_pos(t, x@) == p + insert_pos(t.skip(p as int), x@),
            decreases out.len() - p,
        {
            assert(t.skip(p as int)[0] == out@[p as int]@);
            assert(t.skip(p as int).drop_first() =~= t.skip(p + 1));
            p = p + 1;
        }
        proof {
            if p < out.len() {
                assert(t.skip(p as int)[0] == out@[p as int]@);
            }
            assert(insert_pos(t, x@) == p);
            assert(vv.take(i + 1).drop_last() =~= vv.take(i as int));
            assert(vv.take(i + 1).last() == x@);
        }
        let c = slice_chars(x, 0, x.len());
        assert(x@.subrange(0, x@.len() as int) =~= x@);
        out.insert(p, c);
        assert(vecs_view(out@) =~= t.take(p as int) + seq![x@] + t.skip(p as int));
        i = i + 1;
    }
    assert(vv.take(i as int) =~= vv);
    out
}

/// The keyrings to populate, from the requested names, whether the `.gpg` file
/// of each exists (`present`, one flag per requested name) and the keyring
/// directory's listing (`(name, is a regular file)`): the requested ones when
/// there are any (an error names the first without a `.gpg` file); otherwise
/// the listing's `.gpg` files without that suffix, in string order (an error
/// when there is none).
pub fn select_keyrings(requested: &[String], present: &[bool], entries: &[(String, bool)]) -> (r: Result<
    Vec<String>,
    KeyringChoiceError,
>)
    ensures
        choice_view(r) == spec_select_keyrings(strings_view(requested@), present@, entries_view(entries@)),
{
    let ghost es = entries_view(entries@);
    if requested.len() > 0 {
        let ghost req = strings_view(requested@);
        let mut i: usize = 0;
        while i < requested.len()
            invariant
                i <= requested.len(),
                req == strings_view(requested@),
                first_missing_from(req, present@, 0) == first_missing_from(req, present@, i as int),
            decreases requested.len() - i,
        {
            if !(i < present.len() && present[i]) {
                assert(req[i as int] == requested@[i as int]@);
                return Err(KeyringChoiceError::Missing(requested[i].clone()));
            }
            i = i + 1;
        }
        let mut out: Vec<String> = Vec::new();
        let mut j: usize = 0;
        while j < requested.len()
            invariant
                j <= requested.len(),
                req == strings_view(requested@),
                strings_view(out@) == req.take(j as int),
            decreases requested.len() - j,
        {
            let ghost before = strings_view(out@);
            let c = requested[j].clone();
            out.push(c);
            assert(strings_view(out@) =~= before.push(req[j as int]));
            assert(strings_view(out@) =~= req.take(j + 1));
            j = j + 1;
        }
        assert(req.take(j as int) =~= req);
        return Ok(out);
    }
    let mut stems: Vec<Vec<char>> = Vec::new();
    let mut k: usize = 0;
    assert(es.take(0) =~= Seq::<(Seq<char>, bool)>::empty());
    while k < entries.len()
        invariant
            k <= entries.len(),
            es == entries_view(entries@),
            vecs_view(stems@) == gpg_stems(es.take(k as int)),
        decreases entries.len() - k,
    {
        let name = chars_of(entries[k].0.as_str());
        assert(es.take(k + 1).drop_last() =~= es.take(k as int));
        assert(es.take(k + 1).last() == (name@, entries@[k as int].1));
        if entries[k].1 && ends_with_str(&name, ".gpg") {
            let s = trim_end_matches_chars(&name, ".gpg");
            let ghost b = vecs_view(stems@);
            stems.push(s);
            assert(vecs_view(stems@) =~= b.push(s@));
        }
        k = k + 1;
    }
    assert(es.take(k as int) =~= es);
    let sorted = sort_names(&stems);
    if sorted.len() == 0 {
        return Err(KeyringChoiceError::NoneFound);
    }
    let mut out: Vec<String> = Vec::new();
    let mut j: usize = 0;
    let ghost sv = vecs_view(sorted@);
    while j < sorted.len()
        invariant
            j <= sorted.len(),
            sv == vecs_view(sorted@),
            strings_view(out@) == sv.take(j as int),
        decreases sorted.len() - j,
    {
        let ghost before = strings_view(out@);
        out.push(string_of(&sorted[j]));
        assert(strings_view(out@) =~= before.push(sv[j as int]));
        assert(strings_view(out@) =~= sv.take(j + 1));
        j = j + 1;
    }
    assert(sv.take(j as int) =~= sv);
    Ok(out)
}

// ----------------------------------------------------------------------------
// The keyring's locations
// ----------------------------------------------------------------------------

/// Where the keyring lives and where keyring packages install their files.
#[derive(Debug, Clone)]
pub struct KeyringManager {
    pub gpg_dir: String,
    pub keyring_import_dir: String,
    pub keyserver: Option<String>,
}

impl KeyringManager {
    /// The keyring of a pacman configuration: its GnuPG directory, and the keyring
    /// files under its root.
    pub fn new(config: &PacmanConfig) -> (m: KeyringManager)
        ensures
            m.gpg_dir@ == config.gpg_dir@,
            m.keyring_import_dir@ == join_rel(config.root_dir@, "usr/share/pacman/keyrings"@),
            opt_view(m.keyserver) == Some("hkps://keyserver.ubuntu.com"@),
    {
        KeyringManager {
            gpg_dir: config.gpg_dir.clone(),
            keyring_import_dir: join_rel_exec(config.root_dir.as_str(), "usr/share/pacman/keyrings"),
            keyserver: Some(String::from_str("hkps://keyserver.ubuntu.com")),
        }
    }

    /// A keyring at the given directories.
    pub fn with_dirs(gpg_dir: &str, keyring_import_dir: &str) -> (m: KeyringManager)
        ensures
            m.gpg_dir@ == gpg_dir@,
            m.keyring_import_dir@ == keyring_import_dir@,
            opt_view(m.keyserver) == Some("hkps://keyserver.ubuntu.com"@),
    {
        KeyringManager {
            gpg_dir: gpg_dir.to_owned(),
            keyring_import_dir: keyring_import_dir.to_owned(),
            keyserver: Some(String::from_str("hkps://keyserver.ubuntu.com")),
        }
    }
}

} // verus!
