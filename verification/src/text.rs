//! Character-level text helpers with exact specifications of the std string
//! operations the engine relies on (`trim`, `lines`, `starts_with`, `replace`, ...).
//!
//! Text is handled as `Vec<char>` whose view is the `Seq<char>` of a `str`.

use vstd::prelude::*;

verus! {

// ----------------------------------------------------------------------------
// Specifications
// ----------------------------------------------------------------------------

/// Unicode `White_Space`, the property `char::is_whitespace` tests.
pub open spec fn is_ws(c: char) -> bool {
    let n = c as u32;
    ||| n == 0x20
    ||| (0x09 <= n && n <= 0x0d)
    ||| n == 0x85
    ||| n == 0xa0
    ||| n == 0x1680
    ||| (0x2000 <= n && n <= 0x200a)
    ||| n == 0x2028
    ||| n == 0x2029
    ||| n == 0x202f
    ||| n == 0x205f
    ||| n == 0x3000
}

/// `str::trim_start`.
pub open spec fn trim_start(s: Seq<char>) -> Seq<char>
    decreases s.len(),
{
    if s.len() > 0 && is_ws(s[0]) {
        trim_start(s.drop_first())
    } else {
        s
    }
}

/// `str::trim_end`.
pub open spec fn trim_end(s: Seq<char>) -> Seq<char>
    decreases s.len(),
{
    if s.len() > 0 && is_ws(s.last()) {
        trim_end(s.drop_last())
    } else {
        s
    }
}

/// `str::trim`.
pub open spec fn trim(s: Seq<char>) -> Seq<char> {
    trim_end(trim_start(s))
}

/// `s` begins with `p`.
pub open spec fn starts_with(s: Seq<char>, p: Seq<char>) -> bool {
    p.len() <= s.len() && s.take(p.len() as int) == p
}

/// `s` ends with `p`.
pub open spec fn ends_with(s: Seq<char>, p: Seq<char>) -> bool {
    p.len() <= s.len() && s.skip(s.len() - p.len()) == p
}

/// `p` occurs in `s` starting at position `i`.
pub open spec fn occurs_at(s: Seq<char>, p: Seq<char>, i: int) -> bool {
    0 <= i && i + p.len() <= s.len() && s.subrange(i, i + p.len()) == p
}

/// `str::contains` with a string pattern.
pub open spec fn contains(s: Seq<char>, p: Seq<char>) -> bool {
    exists|i: int| occurs_at(s, p, i)
}

/// Index of the first `c` in `s` at or after `i`, or `s.len()` when there is none.
pub open spec fn find_from(s: Seq<char>, c: char, i: int) -> int
    decreases s.len() - i,
{
    if i < 0 || i >= s.len() {
        s.len() as int
    } else if s[i] == c {
        i
    } else {
        find_from(s, c, i + 1)
    }
}

/// A line without its `\r`, as `str::lines` removes it before a `\n`.
pub open spec fn strip_cr(l: Seq<char>) -> Seq<char> {
    if l.len() > 0 && l.last() == '\r' {
        l.drop_last()
    } else {
        l
    }
}

/// The lines of `s.skip(i)`, as `str::lines` yields them.
pub open spec fn lines_from(s: Seq<char>, i: int) -> Seq<Seq<char>>
    decreases s.len() - i,
{
    if i < 0 || i >= s.len() {
        seq![]
    } else {
        let j = find_from(s, '\n', i);
        proof {
            lemma_find_from_bounds(s, '\n', i);
        }
        if j < s.len() {
            seq![strip_cr(s.subrange(i, j))] + lines_from(s, j + 1)
        } else {
            seq![s.subrange(i, s.len() as int)]
        }
    }
}

/// `str::lines`.
pub open spec fn lines(s: Seq<char>) -> Seq<Seq<char>> {
    lines_from(s, 0)
}

/// `str::replace` with a non-empty pattern: every non-overlapping occurrence of `p`,
/// scanned from the left, is replaced by `r`.
pub open spec fn replace(s: Seq<char>, p: Seq<char>, r: Seq<char>) -> Seq<char>
    decreases s.len(),
{
    if s.len() == 0 || p.len() == 0 {
        s
    } else if starts_with(s, p) {
        r + replace(s.skip(p.len() as int), p, r)
    } else {
        seq![s[0]] + replace(s.drop_first(), p, r)
    }
}

/// `char::to_ascii_lowercase`.
pub open spec fn ascii_lower(c: char) -> char {
    if 'A' <= c && c <= 'Z' {
        ((c as u32) + 32) as char
    } else {
        c
    }
}

/// `str::eq_ignore_ascii_case`.
pub open spec fn eq_ignore_ascii_case(a: Seq<char>, b: Seq<char>) -> bool {
    a.len() == b.len() && forall|i: int| 0 <= i < a.len() ==> ascii_lower(a[i]) == ascii_lower(b[i])
}

/// `str::to_ascii_lowercase`.
pub open spec fn to_ascii_lower(s: Seq<char>) -> Seq<char> {
    s.map_values(|c: char| ascii_lower(c))
}

/// The text before the first `c` in `s` (all of `s` when there is none): the first
/// item of `str::splitn(2, c)`.
pub open spec fn before_char(s: Seq<char>, c: char) -> Seq<char> {
    s.take(find_from(s, c, 0))
}

/// The text after the first `c` in `s`: the second item of `str::splitn(2, c)`.
pub open spec fn after_char(s: Seq<char>, c: char) -> Option<Seq<char>> {
    let j = find_from(s, c, 0);
    if j < s.len() {
        Some(s.skip(j + 1))
    } else {
        None
    }
}


/// The pieces of `s.skip(i)` between occurrences of `c`, as `str::split(c)` yields them.
pub open spec fn split_from(s: Seq<char>, c: char, i: int) -> Seq<Seq<char>>
    decreases s.len() - i,
{
    if i < 0 || i > s.len() {
        seq![]
    } else {
        let j = find_from(s, c, i);
        proof {
            lemma_find_from_bounds(s, c, i);
        }
        if j < s.len() {
            seq![s.subrange(i, j)] + split_from(s, c, j + 1)
        } else {
            seq![s.subrange(i, s.len() as int)]
        }
    }
}

/// `str::split(c)`.
pub open spec fn split(s: Seq<char>, c: char) -> Seq<Seq<char>> {
    split_from(s, c, 0)
}

/// Index of the first whitespace character of `s` at or after `i`, or `s.len()`.
pub open spec fn find_ws(s: Seq<char>, i: int) -> int
    decreases s.len() - i,
{
    if i < 0 || i >= s.len() {
        s.len() as int
    } else if is_ws(s[i]) {
        i
    } else {
        find_ws(s, i + 1)
    }
}

/// The whitespace-separated words of `s.skip(i)`.
pub open spec fn words_from(s: Seq<char>, i: int) -> Seq<Seq<char>>
    decreases s.len() - i,
{
    if i < 0 || i >= s.len() {
        seq![]
    } else if is_ws(s[i]) {
        words_from(s, i + 1)
    } else {
        let j = find_ws(s, i);
        proof {
            lemma_find_ws_bounds(s, i);
        }
        seq![s.subrange(i, j)] + words_from(s, j)
    }
}

/// `str::split_whitespace`.
pub open spec fn words(s: Seq<char>) -> Seq<Seq<char>> {
    words_from(s, 0)
}


/// `c` is an ASCII decimal digit.
pub open spec fn is_digit(c: char) -> bool {
    '0' <= c && c <= '9'
}

/// The value of a digit.
pub open spec fn digit_value(c: char) -> int {
    (c as int) - ('0' as int)
}

/// The number a string of decimal digits denotes.
pub open spec fn digits_value(s: Seq<char>) -> int
    decreases s.len(),
{
    if s.len() == 0 {
        0
    } else {
        digits_value(s.drop_last()) * 10 + digit_value(s.last())
    }
}

/// Every character of `s` is a decimal digit.
pub open spec fn all_digits(s: Seq<char>) -> bool {
    forall|i: int| 0 <= i < s.len() ==> is_digit(#[trigger] s[i])
}

/// `str::parse::<u64>`: an optional `+` followed by at least one decimal digit,
/// denoting a value that fits in 64 bits.
pub open spec fn parse_u64(s: Seq<char>) -> Option<u64> {
    let d = if s.len() > 0 && s[0] == '+' { s.drop_first() } else { s };
    if d.len() > 0 && all_digits(d) && digits_value(d) <= u64::MAX {
        Some(digits_value(d) as u64)
    } else {
        None
    }
}

/// The `n`-th item of a sequence, as `Iterator::nth` returns it.
pub open spec fn nth<T>(s: Seq<T>, n: int) -> Option<T> {
    if 0 <= n < s.len() {
        Some(s[n])
    } else {
        None
    }
}

// ----------------------------------------------------------------------------
// Lemmas
// ----------------------------------------------------------------------------

pub proof fn lemma_find_from_bounds(s: Seq<char>, c: char, i: int)
    ensures
        0 <= i <= s.len() ==> i <= find_from(s, c, i) <= s.len(),
        0 <= i <= find_from(s, c, i) < s.len() ==> s[find_from(s, c, i)] == c,
        0 <= i ==> forall|k: int| i <= k < find_from(s, c, i) ==> s[k] != c,
    decreases s.len() - i,
{
    if i < 0 || i >= s.len() {
    } else if s[i] == c {
    } else {
        lemma_find_from_bounds(s, c, i + 1);
    }
}


pub proof fn lemma_find_ws_bounds(s: Seq<char>, i: int)
    ensures
        0 <= i <= s.len() ==> i <= find_ws(s, i) <= s.len(),
        0 <= i < s.len() && !is_ws(s[i]) ==> i < find_ws(s, i),
        0 <= i <= find_ws(s, i) < s.len() ==> is_ws(s[find_ws(s, i)]),
        0 <= i ==> forall|k: int| i <= k < find_ws(s, i) ==> !is_ws(s[k]),
    decreases s.len() - i,
{
    if i < 0 || i >= s.len() {
    } else if is_ws(s[i]) {
    } else {
        lemma_find_ws_bounds(s, i + 1);
    }
}


pub proof fn lemma_digits_value_nonneg(s: Seq<char>)
    requires
        all_digits(s),
    ensures
        digits_value(s) >= 0,
    decreases s.len(),
{
    if s.len() > 0 {
        assert(all_digits(s.drop_last())) by {
            assert forall|i: int| 0 <= i < s.drop_last().len() implies is_digit(#[trigger] s.drop_last()[i]) by {
                assert(s.drop_last()[i] == s[i]);
            }
        }
        lemma_digits_value_nonneg(s.drop_last());
        assert(is_digit(s[s.len() - 1]));
    }
}

proof fn lemma_digits_value_grows(s: Seq<char>, i: int)
    requires
        all_digits(s),
        0 <= i <= s.len(),
    ensures
        digits_value(s.take(i)) <= digits_value(s),
    decreases s.len() - i,
{
    if i < s.len() {
        assert(all_digits(s.drop_last())) by {
            assert forall|k: int| 0 <= k < s.drop_last().len() implies is_digit(#[trigger] s.drop_last()[k]) by {
                assert(s.drop_last()[k] == s[k]);
            }
        }
        assert(s.drop_last().take(i) == s.take(i));
        lemma_digits_value_grows(s.drop_last(), i);
        lemma_digits_value_nonneg(s.drop_last());
        assert(is_digit(s[s.len() - 1]));
    } else {
        assert(s.take(i) == s);
    }
}

proof fn lemma_trim_start_skip(s: Seq<char>, i: int)
    requires
        0 <= i <= s.len(),
        forall|k: int| 0 <= k < i ==> is_ws(s[k]),
    ensures
        trim_start(s) == trim_start(s.skip(i)),
    decreases i,
{
    if i > 0 {
        assert(s.skip(1) == s.drop_first());
        lemma_trim_start_skip(s.drop_first(), i - 1);
        assert(s.drop_first().skip(i - 1) == s.skip(i));
    } else {
        assert(s.skip(0) == s);
    }
}

proof fn lemma_trim_end_take(s: Seq<char>, j: int)
    requires
        0 <= j <= s.len(),
        forall|k: int| j <= k < s.len() ==> is_ws(s[k]),
    ensures
        trim_end(s) == trim_end(s.take(j)),
    decreases s.len() - j,
{
    if j < s.len() {
        assert(s.drop_last().take(j) == s.take(j));
        lemma_trim_end_take(s.drop_last(), j);
    } else {
        assert(s.take(j) == s);
    }
}

// ----------------------------------------------------------------------------
// Executable helpers
// ----------------------------------------------------------------------------


/// `char::is_whitespace`.
pub fn is_whitespace(c: char) -> (b: bool)
    ensures
        b == is_ws(c),
{
    let n = c as u32;
    n == 0x20 || (0x09 <= n && n <= 0x0d) || n == 0x85 || n == 0xa0 || n == 0x1680 || (0x2000
        <= n && n <= 0x200a) || n == 0x2028 || n == 0x2029 || n == 0x202f || n == 0x205f || n
        == 0x3000
}

/// The characters of `s`, in order.
pub fn chars_of(s: &str) -> (v: Vec<char>)
    ensures
        v@ == s@,
{
    let mut v: Vec<char> = Vec::new();
    for c in it: s.chars()
        invariant
            v@ == it.seq().take(it.index() as int),
    {
        v.push(c);
    }
    assert(v@ == s@);
    v
}

/// Appends one character to a string (std `String::push`).
#[verifier::external_body]
pub(crate) fn push_char(s: &mut String, c: char)
    ensures
        final(s)@ == old(s)@.push(c),
{
    s.push(c);
}

/// A `String` holding the characters of `v`.
pub fn string_of(v: &[char]) -> (s: String)
    ensures
        s@ == v@,
{
    let mut s = String::new();
    let mut i: usize = 0;
    while i < v.len()
        invariant
            i <= v.len(),
            s@ == v@.take(i as int),
        decreases v.len() - i,
    {
        push_char(&mut s, v[i]);
        assert(v@.take(i as int).push(v@[i as int]) == v@.take(i + 1));
        i = i + 1;
    }
    assert(v@.take(v.len() as int) == v@);
    s
}

/// The characters `v[a..b]`.
pub fn slice_chars(v: &[char], a: usize, b: usize) -> (r: Vec<char>)
    requires
        a <= b <= v.len(),
    ensures
        r@ == v@.subrange(a as int, b as int),
{
    let mut r: Vec<char> = Vec::new();
    let mut i: usize = a;
    while i < b
        invariant
            a <= i <= b <= v.len(),
            r@ == v@.subrange(a as int, i as int),
        decreases b - i,
    {
        r.push(v[i]);
        assert(v@.subrange(a as int, i as int).push(v@[i as int]) == v@.subrange(
            a as int,
            i + 1,
        ));
        i = i + 1;
    }
    r
}

/// `v` followed by `w`.
pub fn concat(v: &[char], w: &[char]) -> (r: Vec<char>)
    ensures
        r@ == v@ + w@,
{
    let mut r = slice_chars(v, 0, v.len());
    assert(v@.subrange(0, v@.len() as int) == v@);
    let mut i: usize = 0;
    while i < w.len()
        invariant
            i <= w.len(),
            r@ == v@ + w@.take(i as int),
        decreases w.len() - i,
    {
        r.push(w[i]);
        assert(v@ + w@.take(i as int) + seq![w@[i as int]] == v@ + w@.take(i + 1));
        i = i + 1;
    }
    assert(w@.take(w.len() as int) == w@);
    r
}

/// Appends the characters of `w` to `r`.
pub fn append(r: &mut Vec<char>, w: &[char])
    ensures
        final(r)@ == old(r)@ + w@,
{
    let mut i: usize = 0;
    while i < w.len()
        invariant
            i <= w.len(),
            r@ == old(r)@ + w@.take(i as int),
        decreases w.len() - i,
    {
        r.push(w[i]);
        assert(old(r)@ + w@.take(i as int) + seq![w@[i as int]] == old(r)@ + w@.take(i + 1));
        i = i + 1;
    }
    assert(w@.take(w.len() as int) == w@);
}

/// Appends the characters of `w` to `r`.
pub fn append_str(r: &mut Vec<char>, w: &str)
    ensures
        final(r)@ == old(r)@ + w@,
{
    let wv = chars_of(w);
    append(r, &wv);
}

/// `str::trim`.
pub fn trim_chars(v: &[char]) -> (r: Vec<char>)
    ensures
        r@ == trim(v@),
{
    let mut a: usize = 0;
    while a < v.len() && is_whitespace(v[a])
        invariant
            a <= v.len(),
            forall|k: int| 0 <= k < a ==> is_ws(v@[k]),
        decreases v.len() - a,
    {
        a = a + 1;
    }
    let mut b: usize = v.len();
    while b > a && is_whitespace(v[b - 1])
        invariant
            a <= b <= v.len(),
            forall|k: int| b <= k < v.len() ==> is_ws(v@[k]),
        decreases b,
    {
        b = b - 1;
    }
    proof {
        lemma_trim_start_skip(v@, a as int);
        let t = v@.skip(a as int);
        assert(trim_start(t) == t);
        lemma_trim_end_take(t, (b - a) as int);
        assert(t.take((b - a) as int) == v@.subrange(a as int, b as int));
        let u = v@.subrange(a as int, b as int);
        assert(trim_end(u) == u);
    }
    slice_chars(v, a, b)
}

/// Whether `v` begins with `p`.
pub fn starts_with_chars(v: &[char], p: &[char]) -> (b: bool)
    ensures
        b == starts_with(v@, p@),
{
    if p.len() > v.len() {
        return false;
    }
    let mut i: usize = 0;
    while i < p.len()
        invariant
            i <= p.len() <= v.len(),
            forall|k: int| 0 <= k < i ==> v@[k] == p@[k],
        decreases p.len() - i,
    {
        if v[i] != p[i] {
            assert(v@.take(p.len() as int)[i as int] != p@[i as int]);
            return false;
        }
        i = i + 1;
    }
    assert(v@.take(p.len() as int) == p@);
    true
}

/// Whether `v` begins with `p`.
pub fn starts_with_str(v: &[char], p: &str) -> (b: bool)
    ensures
        b == starts_with(v@, p@),
{
    let pv = chars_of(p);
    starts_with_chars(v, &pv)
}

/// Whether `p` occurs in `v` at position `i`.
pub fn occurs_at_chars(v: &[char], p: &[char], i: usize) -> (b: bool)
    ensures
        b == occurs_at(v@, p@, i as int),
{
    if i > v.len() || p.len() > v.len() - i {
        return false;
    }
    let mut k: usize = 0;
    while k < p.len()
        invariant
            i + p.len() <= v.len(),
            k <= p.len(),
            forall|m: int| 0 <= m < k ==> v@[i + m] == p@[m],
        decreases p.len() - k,
    {
        if v[i + k] != p[k] {
            assert(v@.subrange(i as int, i + p.len())[k as int] != p@[k as int]);
            return false;
        }
        k = k + 1;
    }
    assert(v@.subrange(i as int, i + p.len()) == p@);
    true
}

/// Whether `v` ends with `p`.
pub fn ends_with_chars(v: &[char], p: &[char]) -> (b: bool)
    ensures
        b == ends_with(v@, p@),
{
    if p.len() > v.len() {
        return false;
    }
    let r = occurs_at_chars(v, p, v.len() - p.len());
    assert(v@.subrange(v.len() - p.len(), v.len() as int) == v@.skip(v.len() - p.len()));
    r
}

/// Whether `v` ends with `p`.
pub fn ends_with_str(v: &[char], p: &str) -> (b: bool)
    ensures
        b == ends_with(v@, p@),
{
    let pv = chars_of(p);
    ends_with_chars(v, &pv)
}

/// Whether `p` occurs anywhere in `v`.
pub fn contains_chars(v: &[char], p: &[char]) -> (b: bool)
    ensures
        b == contains(v@, p@),
{
    if p.len() == 0 {
        assert(v@.subrange(0, 0) =~= p@);
        assert(occurs_at(v@, p@, 0));
        return true;
    }
    let mut i: usize = 0;
    while i < v.len() && p.len() <= v.len() - i
        invariant
            p.len() > 0,
            i <= v.len(),
            forall|k: int| 0 <= k < i ==> !occurs_at(v@, p@, k),
        decreases v.len() - i,
    {
        if occurs_at_chars(v, p, i) {
            return true;
        }
        i = i + 1;
    }
    assert forall|k: int| !occurs_at(v@, p@, k) by {
        if 0 <= k < i {
        }
    }
    false
}

/// Whether `p` occurs anywhere in `v`.
pub fn contains_str(v: &[char], p: &str) -> (b: bool)
    ensures
        b == contains(v@, p@),
{
    let pv = chars_of(p);
    contains_chars(v, &pv)
}

/// Whether `v` holds exactly the characters of `p`.
pub fn eq_str(v: &[char], p: &str) -> (b: bool)
    ensures
        b == (v@ == p@),
{
    let pv = chars_of(p);
    if v.len() != pv.len() {
        return false;
    }
    let r = starts_with_chars(v, &pv);
    assert(r ==> v@.take(pv.len() as int) == v@);
    assert(v@ == p@ ==> v@.take(pv.len() as int) == v@);
    r
}

/// Index of the first `c` in `v` at or after `i`, or `v.len()`.
pub fn find_char_from(v: &[char], c: char, i: usize) -> (j: usize)
    requires
        i <= v.len(),
    ensures
        j == find_from(v@, c, i as int),
{
    let mut j: usize = i;
    while j < v.len() && v[j] != c
        invariant
            i <= j <= v.len(),
            find_from(v@, c, i as int) == find_from(v@, c, j as int),
        decreases v.len() - j,
    {
        j = j + 1;
    }
    j
}

/// The extent of the line that starts at `i`: its end (before `\r\n` or `\n`) and
/// the start of the next line.
pub fn next_line(v: &[char], i: usize) -> (r: (usize, usize))
    requires
        i < v.len(),
    ensures
        i <= r.0 <= v.len(),
        i < r.1 <= v.len(),
        lines_from(v@, i as int) == seq![v@.subrange(i as int, r.0 as int)] + lines_from(
            v@,
            r.1 as int,
        ),
{
    let j = find_char_from(v, '\n', i);
    proof {
        lemma_find_from_bounds(v@, '\n', i as int);
    }
    if j < v.len() {
        let e: usize = if j > i && v[j - 1] == '\r' {
            j - 1
        } else {
            j
        };
        assert(v@.subrange(i as int, e as int) == strip_cr(v@.subrange(i as int, j as int)));
        (e, j + 1)
    } else {
        assert(lines_from(v@, v.len() as int) == Seq::<Seq<char>>::empty());
        (v.len(), v.len())
    }
}

/// The ASCII lowercase of `c`.
pub fn ascii_lower_char(c: char) -> (r: char)
    ensures
        r == ascii_lower(c),
{
    if 'A' <= c && c <= 'Z' {
        ((c as u8) + 32) as char
    } else {
        c
    }
}

/// `str::eq_ignore_ascii_case` against a literal.
pub fn eq_ignore_ascii_case_str(v: &[char], p: &str) -> (b: bool)
    ensures
        b == eq_ignore_ascii_case(v@, p@),
{
    let pv = chars_of(p);
    if v.len() != pv.len() {
        return false;
    }
    let mut i: usize = 0;
    while i < v.len()
        invariant
            v.len() == pv.len(),
            pv@ == p@,
            i <= v.len(),
            forall|k: int| 0 <= k < i ==> ascii_lower(v@[k]) == ascii_lower(pv@[k]),
        decreases v.len() - i,
    {
        if ascii_lower_char(v[i]) != ascii_lower_char(pv[i]) {
            assert(ascii_lower(v@[i as int]) != ascii_lower(p@[i as int]));
            return false;
        }
        i = i + 1;
    }
    true
}

/// `str::to_ascii_lowercase`.
pub fn to_ascii_lower_chars(v: &[char]) -> (r: Vec<char>)
    ensures
        r@ == to_ascii_lower(v@),
{
    let mut r: Vec<char> = Vec::new();
    let mut i: usize = 0;
    while i < v.len()
        invariant
            i <= v.len(),
            r@ == to_ascii_lower(v@.take(i as int)),
        decreases v.len() - i,
    {
        r.push(ascii_lower_char(v[i]));
        assert(to_ascii_lower(v@.take(i as int)).push(ascii_lower(v@[i as int]))
            == to_ascii_lower(v@.take(i + 1)));
        i = i + 1;
    }
    assert(v@.take(v.len() as int) == v@);
    r
}

/// `str::replace(p, r)` for a non-empty pattern `p`.
pub fn replace_chars(v: &[char], p: &[char], r: &[char]) -> (out: Vec<char>)
    requires
        p.len() > 0,
    ensures
        out@ == replace(v@, p@, r@),
{
    let mut out: Vec<char> = Vec::new();
    let mut i: usize = 0;
    assert(v@.skip(0) == v@);
    while i < v.len()
        invariant
            p.len() > 0,
            i <= v.len(),
            out@ + replace(v@.skip(i as int), p@, r@) == replace(v@, p@, r@),
        decreases v.len() - i,
    {
        let ghost rest = v@.skip(i as int);
        if occurs_at_chars(v, p, i) {
            assert(rest.take(p.len() as int) == v@.subrange(i as int, i + p.len()));
            assert(rest.skip(p.len() as int) == v@.skip(i + p.len()));
            append(&mut out, r);
            i = i + p.len();
        } else {
            assert(!starts_with(rest, p@)) by {
                if starts_with(rest, p@) {
                    assert(rest.take(p.len() as int) == v@.subrange(i as int, i + p.len()));
                }
            }
            assert(rest.drop_first() == v@.skip(i + 1));
            out.push(v[i]);
            i = i + 1;
        }
    }
    assert(v@.skip(v.len() as int) == Seq::<char>::empty());
    out
}

/// `str::replace(p, r)` for non-empty literal patterns.
pub fn replace_str(v: &[char], p: &str, r: &[char]) -> (out: Vec<char>)
    requires
        p@.len() > 0,
    ensures
        out@ == replace(v@, p@, r@),
{
    let pv = chars_of(p);
    replace_chars(v, &pv, r)
}


/// The views of a vector of character vectors.
pub open spec fn vecs_view(v: Seq<Vec<char>>) -> Seq<Seq<char>> {
    v.map_values(|x: Vec<char>| x@)
}

/// `str::split(c)`.
pub fn split_chars(v: &[char], c: char) -> (r: Vec<Vec<char>>)
    ensures
        vecs_view(r@) == split(v@, c),
{
    let mut r: Vec<Vec<char>> = Vec::new();
    let mut i: usize = 0;
    loop
        invariant
            i <= v.len(),
            vecs_view(r@) + split_from(v@, c, i as int) == split(v@, c),
        decreases v.len() - i,
    {
        let j = find_char_from(v, c, i);
        proof {
            lemma_find_from_bounds(v@, c, i as int);
        }
        let piece = slice_chars(v, i, j);
        let ghost before = vecs_view(r@);
        r.push(piece);
        assert(vecs_view(r@) == before.push(piece@));
        if j < v.len() {
            assert(vecs_view(r@) + split_from(v@, c, j + 1) == before + split_from(v@, c, i as int));
            i = j + 1;
        } else {
            assert(vecs_view(r@) == before + split_from(v@, c, i as int));
            assert(vecs_view(r@) + Seq::<Seq<char>>::empty() == vecs_view(r@));
            return r;
        }
    }
}

/// `str::lines`, materialised.
pub fn lines_of(v: &[char]) -> (r: Vec<Vec<char>>)
    ensures
        vecs_view(r@) == lines(v@),
{
    let mut r: Vec<Vec<char>> = Vec::new();
    let mut pos: usize = 0;
    assert(vecs_view(r@) + lines_from(v@, 0) == lines(v@));
    while pos < v.len()
        invariant
            pos <= v.len(),
            vecs_view(r@) + lines_from(v@, pos as int) == lines(v@),
        decreases v.len() - pos,
    {
        let (e, next) = next_line(v, pos);
        let line = slice_chars(v, pos, e);
        let ghost before = vecs_view(r@);
        r.push(line);
        assert(vecs_view(r@) == before.push(line@));
        assert(vecs_view(r@) + lines_from(v@, next as int) == before + lines_from(v@, pos as int));
        pos = next;
    }
    assert(lines_from(v@, pos as int) == Seq::<Seq<char>>::empty());
    assert(vecs_view(r@) + Seq::<Seq<char>>::empty() == vecs_view(r@));
    r
}

/// Index of the last `c` in `s`, or -1 when there is none (`str::rfind`).
pub open spec fn rfind(s: Seq<char>, c: char) -> int
    decreases s.len(),
{
    if s.len() == 0 {
        -1
    } else if s.last() == c {
        s.len() - 1
    } else {
        rfind(s.drop_last(), c)
    }
}

pub proof fn lemma_rfind_bounds(s: Seq<char>, c: char)
    ensures
        -1 <= rfind(s, c) < s.len(),
        rfind(s, c) >= 0 ==> s[rfind(s, c)] == c,
        forall|k: int| rfind(s, c) < k < s.len() ==> s[k] != c,
    decreases s.len(),
{
    if s.len() > 0 && s.last() != c {
        lemma_rfind_bounds(s.drop_last(), c);
        assert forall|k: int| rfind(s, c) < k < s.len() implies s[k] != c by {
            if k < s.len() - 1 {
                assert(s.drop_last()[k] == s[k]);
            }
        }
    }
}

/// `str::rfind(c)`, as an index into `v` or `None`.
pub fn rfind_char(v: &[char], c: char) -> (r: Option<usize>)
    ensures
        match r {
            Some(i) => i == rfind(v@, c) && i < v.len(),
            None => rfind(v@, c) == -1,
        },
{
    let mut i: usize = v.len();
    assert(v@.take(i as int) == v@);
    while i > 0
        invariant
            i <= v.len(),
            rfind(v@, c) == rfind(v@.take(i as int), c),
        decreases i,
    {
        assert(v@.take(i as int).drop_last() == v@.take(i - 1));
        if v[i - 1] == c {
            return Some(i - 1);
        }
        i = i - 1;
    }
    None
}

/// `str::split_whitespace`.
pub fn words_of(v: &[char]) -> (r: Vec<Vec<char>>)
    ensures
        vecs_view(r@) == words(v@),
{
    let mut r: Vec<Vec<char>> = Vec::new();
    let mut i: usize = 0;
    while i < v.len()
        invariant
            i <= v.len(),
            vecs_view(r@) + words_from(v@, i as int) == words(v@),
        decreases v.len() - i,
    {
        if is_whitespace(v[i]) {
            i = i + 1;
        } else {
            let mut j: usize = i;
            while j < v.len() && !is_whitespace(v[j])
                invariant
                    i <= j <= v.len(),
                    find_ws(v@, i as int) == find_ws(v@, j as int),
                decreases v.len() - j,
            {
                j = j + 1;
            }
            proof {
                lemma_find_ws_bounds(v@, i as int);
            }
            let piece = slice_chars(v, i, j);
            let ghost before = vecs_view(r@);
            r.push(piece);
            assert(vecs_view(r@) == before.push(piece@));
            assert(vecs_view(r@) + words_from(v@, j as int) == before + words_from(v@, i as int));
            i = j;
        }
    }
    assert(vecs_view(r@) + Seq::<Seq<char>>::empty() == vecs_view(r@));
    r
}


/// What `str::to_lowercase` returns for a text: its Unicode lowercase mapping.
pub uninterp spec fn lowercase(s: Seq<char>) -> Seq<char>;

/// Calls std `str::to_lowercase` on the text `v`; the result is named by [`lowercase`].
#[verifier::external_body]
pub(crate) fn to_lowercase_chars(v: &[char]) -> (r: Vec<char>)
    ensures
        r@ == lowercase(v@),
{
    let s: String = v.iter().collect();
    s.to_lowercase().chars().collect()
}


/// Whether `a` and `b` hold the same characters.
pub fn eq_chars(a: &[char], b: &[char]) -> (r: bool)
    ensures
        r == (a@ == b@),
{
    if a.len() != b.len() {
        return false;
    }
    let r = starts_with_chars(a, b);
    assert(r ==> a@.take(b@.len() as int) == a@);
    assert(a@ == b@ ==> a@.take(b@.len() as int) == a@);
    r
}


/// `str::parse::<u64>`.
pub fn parse_u64_chars(v: &[char]) -> (r: Option<u64>)
    ensures
        r == parse_u64(v@),
{
    let start: usize = if v.len() > 0 && v[0] == '+' {
        1
    } else {
        0
    };
    let ghost d = if v@.len() > 0 && v@[0] == '+' {
        v@.drop_first()
    } else {
        v@
    };
    assert(d == v@.skip(start as int));
    if start >= v.len() {
        return None;
    }
    let mut acc: u64 = 0;
    let mut i: usize = start;
    while i < v.len()
        invariant
            start <= i <= v.len(),
            d == v@.skip(start as int),
            d == (if v@.len() > 0 && v@[0] == '+' {
                v@.drop_first()
            } else {
                v@
            }),
            all_digits(d.take(i - start)),
            acc as int == digits_value(d.take(i - start)),
        decreases v.len() - i,
    {
        let c = v[i];
        assert(d[i - start] == c);
        assert(d.take(i + 1 - start).drop_last() == d.take(i - start));
        if c < '0' || c > '9' {
            assert(!is_digit(d[i - start]));
            assert(!all_digits(d));
            assert(parse_u64(v@).is_none());
            return None;
        }
        let dv: u64 = (c as u32 - '0' as u32) as u64;
        assert(all_digits(d.take(i + 1 - start))) by {
            assert forall|k: int| 0 <= k < d.take(i + 1 - start).len() implies is_digit(
                #[trigger] d.take(i + 1 - start)[k],
            ) by {
                if k < i - start {
                    assert(d.take(i + 1 - start)[k] == d.take(i - start)[k]);
                }
            }
        }
        if acc > (u64::MAX - dv) / 10 {
            proof {
                assert(acc * 10 + dv > u64::MAX) by (nonlinear_arith)
                    requires
                        acc > (u64::MAX - dv) / 10,
                        dv <= 9,
                ;
                if all_digits(d) {
                    lemma_digits_value_grows(d, i + 1 - start);
                    assert(digits_value(d.take(i + 1 - start)) == acc * 10 + dv);
                }
                assert(parse_u64(v@).is_none());
            }
            return None;
        }
        acc = acc * 10 + dv;
        i = i + 1;
    }
    assert(d.take(i - start) == d);
    Some(acc)
}

/// `v.split_whitespace().nth(n)`.
pub fn nth_word(v: &[char], n: usize) -> (r: Option<Vec<char>>)
    ensures
        match r {
            Some(w) => nth(words(v@), n as int) == Some(w@),
            None => nth(words(v@), n as int).is_none(),
        },
{
    let ws = words_of(v);
    if n < ws.len() {
        let w = slice_chars(&ws[n], 0, ws[n].len());
        assert(ws@[n as int]@.subrange(0, ws@[n as int]@.len() as int) == ws@[n as int]@);
        assert(vecs_view(ws@)[n as int] == ws@[n as int]@);
        Some(w)
    } else {
        None
    }
}


/// `str::parse::<i64>`: an optional sign followed by at least one decimal digit,
/// denoting a value that fits in 64 bits.
pub open spec fn parse_i64(s: Seq<char>) -> Option<i64> {
    if s.len() > 0 && s[0] == '-' {
        let d = s.drop_first();
        if d.len() > 0 && all_digits(d) && digits_value(d) <= 0x8000_0000_0000_0000 {
            Some((0 - digits_value(d)) as i64)
        } else {
            None
        }
    } else {
        let d = if s.len() > 0 && s[0] == '+' { s.drop_first() } else { s };
        if d.len() > 0 && all_digits(d) && digits_value(d) <= i64::MAX {
            Some(digits_value(d) as i64)
        } else {
            None
        }
    }
}

/// `str::parse::<u32>`.
pub open spec fn parse_u32(s: Seq<char>) -> Option<u32> {
    match parse_u64(s) {
        Some(n) => if n <= u32::MAX { Some(n as u32) } else { None },
        None => None,
    }
}

/// `str::parse::<i64>`.
pub fn parse_i64_chars(v: &[char]) -> (r: Option<i64>)
    ensures
        r == parse_i64(v@),
{
    if v.len() > 0 && v[0] == '-' {
        let d = slice_chars(v, 1, v.len());
        assert(d@ == v@.drop_first());
        if d.len() > 0 && d[0] == '+' {
            assert(!is_digit(d@[0]));
            return None;
        }
        assert(!(d@.len() > 0 && d@[0] == '+'));
        let ghost dd = v@.drop_first();
        proof {
            if all_digits(dd) {
                lemma_digits_value_nonneg(dd);
            }
        }
        assert(parse_u64(d@) == (if dd.len() > 0 && all_digits(dd) && digits_value(dd) <= u64::MAX {
            Some(digits_value(dd) as u64)
        } else {
            None::<u64>
        }));
        match parse_u64_chars(&d) {
            Some(n) => {
                assert(n == digits_value(dd));
                if n < 0x8000_0000_0000_0000u64 {
                    Some(0 - (n as i64))
                } else if n == 0x8000_0000_0000_0000u64 {
                    Some(i64::MIN)
                } else {
                    None
                }
            },
            None => None,
        }
    } else {
        let ghost d = if v@.len() > 0 && v@[0] == '+' { v@.drop_first() } else { v@ };
        proof {
            if all_digits(d) {
                lemma_digits_value_nonneg(d);
            }
        }
        match parse_u64_chars(v) {
            Some(n) => {
                if n <= 0x7fff_ffff_ffff_ffffu64 {
                    Some(n as i64)
                } else {
                    None
                }
            },
            None => None,
        }
    }
}

/// `str::parse::<u32>`.
pub fn parse_u32_chars(v: &[char]) -> (r: Option<u32>)
    ensures
        r == parse_u32(v@),
{
    match parse_u64_chars(v) {
        Some(n) => if n <= 0xffff_ffffu64 { Some(n as u32) } else { None },
        None => None,
    }
}

/// The decimal digit for `d < 10`.
pub open spec fn digit_char(d: int) -> char {
    (d + 48) as char
}

/// The decimal representation of `n`, as `to_string` writes it.
pub open spec fn decimal(n: nat) -> Seq<char>
    decreases n,
{
    if n < 10 {
        seq![digit_char(n as int)]
    } else {
        decimal(n / 10).push(digit_char((n % 10) as int))
    }
}

/// `s` padded on the left with `0` to at least `w` characters (`{:0w}`).
pub open spec fn zero_pad(s: Seq<char>, w: nat) -> Seq<char> {
    if s.len() < w {
        Seq::new((w - s.len()) as nat, |i: int| '0') + s
    } else {
        s
    }
}

/// The decimal representation of `n`.
pub fn decimal_chars(n: u64) -> (r: Vec<char>)
    ensures
        r@ == decimal(n as nat),
    decreases n,
{
    let d: u8 = (n % 10) as u8;
    let c: char = (48u8 + d) as char;
    assert(c == digit_char((n % 10) as int));
    if n < 10 {
        let mut r: Vec<char> = Vec::new();
        r.push(c);
        assert(r@ == seq![c]);
        r
    } else {
        let mut r = decimal_chars(n / 10);
        r.push(c);
        r
    }
}

/// `format!("{:0w$}", n)`.
pub fn zero_padded(n: u64, w: usize) -> (r: Vec<char>)
    ensures
        r@ == zero_pad(decimal(n as nat), w as nat),
{
    let d = decimal_chars(n);
    if d.len() < w {
        let mut r: Vec<char> = Vec::new();
        let k: usize = w - d.len();
        let mut i: usize = 0;
        while i < k
            invariant
                i <= k,
                r@ == Seq::new(i as nat, |j: int| '0'),
            decreases k - i,
        {
            r.push('0');
            assert(r@ == Seq::new((i + 1) as nat, |j: int| '0'));
            i = i + 1;
        }
        append(&mut r, &d);
        r
    } else {
        d
    }
}

} // verus!
