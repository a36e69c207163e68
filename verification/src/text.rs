//! Character-level text helpers: whitespace trimming, first-letter
//! capitalisation and decimal rendering of integers, each stated over the
//! `Seq<char>` view of the strings involved.
use vstd::prelude::*;

verus! {

// ---------------------------------------------------------------------------
// Properties of single characters that std computes from Unicode tables.
// ---------------------------------------------------------------------------

/// Whether `c` has the Unicode `White_Space` property, which
/// `char::is_whitespace` reports: tab to carriage return, space, next line,
/// no-break space, ogham space mark, en quad to hair space, line and
/// paragraph separators, narrow no-break space, medium mathematical space
/// and ideographic space.
pub open spec fn char_whitespace(c: char) -> bool {
    let u = c as u32;
    ||| 0x09 <= u <= 0x0D
    ||| u == 0x20 || u == 0x85 || u == 0xA0 || u == 0x1680
    ||| 0x2000 <= u <= 0x200A
    ||| u == 0x2028 || u == 0x2029 || u == 0x202F || u == 0x205F || u == 0x3000
}

/// Whether `c` has the Unicode `Lowercase` property, as `char::is_lowercase` reports it.
pub uninterp spec fn char_lowercase(c: char) -> bool;

/// The characters that `char::to_uppercase` yields for `c`.
pub uninterp spec fn char_uppercase(c: char) -> Seq<char>;

/// An ASCII character: code point below 0x80.
pub open spec fn is_ascii_char(c: char) -> bool {
    (c as u32) < 0x80
}

/// ASCII whitespace in the sense of Unicode `White_Space`: tab, line feed,
/// vertical tab, form feed, carriage return and space.
pub open spec fn ascii_white_space(c: char) -> bool {
    c == ' ' || ('\t' <= c && c <= '\r')
}

/// The ASCII upper-case form of `c` (unchanged outside `a..=z`).
pub open spec fn ascii_upper(c: char) -> char {
    if 'a' <= c && c <= 'z' {
        ((c as u32) - 32) as char
    } else {
        c
    }
}

/// An ASCII letter, as `char::is_ascii_alphabetic` defines it.
pub open spec fn ascii_letter(c: char) -> bool {
    ('a' <= c && c <= 'z') || ('A' <= c && c <= 'Z')
}

/// An ASCII decimal digit.
pub open spec fn ascii_digit(c: char) -> bool {
    '0' <= c && c <= '9'
}

/// Whether `c` is whitespace, as `char::is_whitespace` decides it.
pub(crate) fn is_whitespace(c: char) -> (res: bool)
    ensures
        res == char_whitespace(c),
        is_ascii_char(c) ==> (res <==> ascii_white_space(c)),
{
    let u = c as u32;
    (0x09 <= u && u <= 0x0D) || u == 0x20 || u == 0x85 || u == 0xA0 || u == 0x1680 || (0x2000 <= u
        && u <= 0x200A) || u == 0x2028 || u == 0x2029 || u == 0x202F || u == 0x205F || u == 0x3000
}

/// Calls `char::is_lowercase`. Claimed: the result is the Unicode `Lowercase`
/// property of `c`, which on ASCII holds exactly of `a..=z`.
#[verifier::external_body]
pub(crate) fn is_lowercase(c: char) -> (res: bool)
    ensures
        res == char_lowercase(c),
        is_ascii_char(c) ==> (res <==> ('a' <= c && c <= 'z')),
{
    c.is_lowercase()
}

/// Calls `char::to_uppercase` and collects what it yields. Claimed: the
/// characters are the upper-case mapping of `c`; for an ASCII character it
/// is the single character that ASCII case mapping gives.
#[verifier::external_body]
pub(crate) fn to_uppercase(c: char) -> (res: Vec<char>)
    ensures
        res@ == char_uppercase(c),
        is_ascii_char(c) ==> res@ == seq![ascii_upper(c)],
{
    c.to_uppercase().collect()
}

/// Builds a `String` from characters through `FromIterator<&char>`. Claimed:
/// the string holds exactly those characters in order.
#[verifier::external_body]
pub(crate) fn string_from_chars(cs: &[char]) -> (res: String)
    ensures
        res@ == cs@,
{
    cs.iter().collect()
}

/// Copies a string slice into an owned `String`.
pub fn to_owned_string(s: &str) -> (res: String)
    ensures
        res@ == s@,
{
    s.to_owned()
}

/// Compares two string slices with `str`'s `==`. Claimed: equal exactly
/// when they hold the same characters.
#[verifier::external_body]
pub(crate) fn str_equal(a: &str, b: &str) -> (res: bool)
    ensures
        res == (a@ == b@),
{
    a == b
}

/// The UTF-8 byte length of `s`.
pub fn byte_len(s: &str) -> (res: usize)
    ensures
        res as nat == vstd::utf8::encode_utf8(s@).len(),
{
    s.as_bytes().len()
}

/// The characters of `s`, in order.
pub fn chars_of(s: &str) -> (res: Vec<char>)
    ensures
        res@ == s@,
{
    let mut res: Vec<char> = Vec::new();
    for c in it: s.chars()
        invariant
            res@ == it.seq().take(it.index() as int),
    {
        res.push(c);
    }
    res
}

/// `parts` joined with `sep` between consecutive elements.
pub open spec fn join_spec(parts: Seq<Seq<char>>, sep: Seq<char>) -> Seq<char>
    decreases parts.len(),
{
    if parts.len() == 0 {
        Seq::empty()
    } else if parts.len() == 1 {
        parts[0]
    } else {
        join_spec(parts.drop_last(), sep) + sep + parts.last()
    }
}

/// Joins `parts` with `sep`.
pub fn join(parts: &[&str], sep: &str) -> (res: String)
    ensures
        res@ == join_spec(views(parts@), sep@),
{
    let ghost all = views(parts@);
    let mut out = String::new();
    let mut i: usize = 0;
    while i < parts.len()
        invariant
            0 <= i <= parts@.len(),
            all == views(parts@),
            out@ == join_spec(all.take(i as int), sep@),
        decreases parts@.len() - i,
    {
        if i > 0 {
            out.append(sep);
        }
        out.append(parts[i]);
        assert(all.take(i + 1).drop_last() =~= all.take(i as int));
        assert(all.take(i + 1).last() == parts@[i as int]@);
        if i == 0 {
            assert(out@ =~= join_spec(all.take(1), sep@));
        }
        i = i + 1;
    }
    assert(all.take(parts@.len() as int) =~= all);
    out
}

/// The character views of a list of string slices.
pub open spec fn views(ps: Seq<&str>) -> Seq<Seq<char>> {
    ps.map_values(|p: &str| p@)
}

// ---------------------------------------------------------------------------
// Trimming
// ---------------------------------------------------------------------------

/// Number of leading characters of `s` that are whitespace.
pub open spec fn leading_ws(s: Seq<char>) -> nat
    decreases s.len(),
{
    if s.len() == 0 {
        0
    } else if char_whitespace(s[0]) {
        1 + leading_ws(s.drop_first())
    } else {
        0
    }
}

/// Number of trailing characters of `s` that are whitespace.
pub open spec fn trailing_ws(s: Seq<char>) -> nat
    decreases s.len(),
{
    if s.len() == 0 {
        0
    } else if char_whitespace(s.last()) {
        1 + trailing_ws(s.drop_last())
    } else {
        0
    }
}

/// `s` without its leading whitespace (what `str::trim_start` returns).
pub open spec fn trim_start_spec(s: Seq<char>) -> Seq<char> {
    s.skip(leading_ws(s) as int)
}

/// `s` without its trailing whitespace (what `str::trim_end` returns).
pub open spec fn trim_end_spec(s: Seq<char>) -> Seq<char> {
    s.take(s.len() - trailing_ws(s))
}

/// `s` without leading and trailing whitespace (what `str::trim` returns).
pub open spec fn trim_spec(s: Seq<char>) -> Seq<char> {
    trim_end_spec(trim_start_spec(s))
}

proof fn lemma_leading_ws_bound(s: Seq<char>)
    ensures
        leading_ws(s) <= s.len(),
    decreases s.len(),
{
    if s.len() > 0 && char_whitespace(s[0]) {
        lemma_leading_ws_bound(s.drop_first());
    }
}

proof fn lemma_trailing_ws_bound(s: Seq<char>)
    ensures
        trailing_ws(s) <= s.len(),
    decreases s.len(),
{
    if s.len() > 0 && char_whitespace(s.last()) {
        lemma_trailing_ws_bound(s.drop_last());
    }
}

/// Characterises `leading_ws` by the first `i` characters being whitespace.
proof fn lemma_leading_ws_step(s: Seq<char>, i: int)
    requires
        0 <= i <= s.len(),
        forall|j: int| 0 <= j < i ==> char_whitespace(#[trigger] s[j]),
    ensures
        i == s.len() ==> leading_ws(s) == s.len(),
        i < s.len() && !char_whitespace(s[i]) ==> leading_ws(s) == i,
    decreases i,
{
    if i > 0 {
        let t = s.drop_first();
        assert forall|j: int| 0 <= j < i - 1 implies char_whitespace(#[trigger] t[j]) by {
            assert(t[j] == s[j + 1]);
        }
        lemma_leading_ws_step(t, i - 1);
        assert(char_whitespace(s[0]));
    }
}

/// Characterises `trailing_ws` by the last `k` characters being whitespace.
proof fn lemma_trailing_ws_step(s: Seq<char>, k: int)
    requires
        0 <= k <= s.len(),
        forall|j: int| s.len() - k <= j < s.len() ==> char_whitespace(#[trigger] s[j]),
    ensures
        k == s.len() ==> trailing_ws(s) == s.len(),
        k < s.len() && !char_whitespace(s[s.len() - 1 - k]) ==> trailing_ws(s) == k,
    decreases k,
{
    if k > 0 {
        let t = s.drop_last();
        assert forall|j: int| t.len() - (k - 1) <= j < t.len() implies char_whitespace(
            #[trigger] t[j],
        ) by {
            assert(t[j] == s[j]);
        }
        lemma_trailing_ws_step(t, k - 1);
        assert(char_whitespace(s[s.len() - 1]));
    }
}

/// `s` without leading whitespace, as `str::trim_start` defines it.
pub fn trim_start(s: &str) -> (res: String)
    ensures
        res@ == trim_start_spec(s@),
{
    let cs = chars_of(s);
    let n = cs.len();
    let mut i: usize = 0;
    while i < n && is_whitespace(cs[i])
        invariant
            0 <= i <= n,
            n == cs@.len(),
            cs@ == s@,
            forall|j: int| 0 <= j < i ==> char_whitespace(#[trigger] cs@[j]),
        decreases n - i,
    {
        i = i + 1;
    }
    proof {
        lemma_leading_ws_step(cs@, i as int);
    }
    let rest = s.substring_char(i, n);
    to_owned_string(rest)
}

/// `s` without trailing whitespace, as `str::trim_end` defines it.
pub fn trim_end(s: &str) -> (res: String)
    ensures
        res@ == trim_end_spec(s@),
{
    let cs = chars_of(s);
    let n = cs.len();
    let mut k: usize = 0;
    while k < n && is_whitespace(cs[n - 1 - k])
        invariant
            0 <= k <= n,
            n == cs@.len(),
            cs@ == s@,
            forall|j: int| n - k <= j < n ==> char_whitespace(#[trigger] cs@[j]),
        decreases n - k,
    {
        k = k + 1;
    }
    proof {
        lemma_trailing_ws_step(cs@, k as int);
    }
    let rest = s.substring_char(0, n - k);
    to_owned_string(rest)
}

/// `s` without leading and trailing whitespace, as `str::trim` defines it.
pub fn trim(s: &str) -> (res: String)
    ensures
        res@ == trim_spec(s@),
{
    let a = trim_start(s);
    trim_end(a.as_str())
}

// ---------------------------------------------------------------------------
// Capitalisation
// ---------------------------------------------------------------------------

/// `s` with its first character replaced by its upper-case mapping.
pub open spec fn capitalize_spec(s: Seq<char>) -> Seq<char> {
    if s.len() == 0 {
        s
    } else {
        char_uppercase(s[0]) + s.drop_first()
    }
}

/// Upper-cases the first character of `s` and keeps the rest.
pub fn capitalize_first(s: &str) -> (res: String)
    ensures
        res@ == capitalize_spec(s@),
{
    let n = s.unicode_len();
    if n == 0 {
        return to_owned_string(s);
    }
    let first = s.get_char(0);
    let up = to_uppercase(first);
    let mut head = string_from_chars(up.as_slice());
    let rest = s.substring_char(1, n);
    head.append(rest);
    assert(head@ =~= capitalize_spec(s@));
    head
}

// ---------------------------------------------------------------------------
// Decimal rendering
// ---------------------------------------------------------------------------

/// The ASCII digit for `d < 10`.
pub open spec fn digit_char(d: nat) -> char {
    (('0' as u32) + d) as char
}

/// The decimal rendering of `n`, without sign or leading zeros.
pub open spec fn decimal(n: nat) -> Seq<char>
    decreases n,
{
    if n < 10 {
        seq![digit_char(n)]
    } else {
        decimal(n / 10) + seq![digit_char(n % 10)]
    }
}

/// The decimal rendering of a signed integer.
pub open spec fn signed_decimal(n: int) -> Seq<char> {
    if n < 0 {
        seq!['-'] + decimal((-n) as nat)
    } else {
        decimal(n as nat)
    }
}

/// The decimal digits of `n`.
pub fn decimal_chars(n: u64) -> (res: Vec<char>)
    ensures
        res@ == decimal(n as nat),
    decreases n,
{
    let d = (n % 10) as u32;
    let c: char = if d == 0 {
        '0'
    } else if d == 1 {
        '1'
    } else if d == 2 {
        '2'
    } else if d == 3 {
        '3'
    } else if d == 4 {
        '4'
    } else if d == 5 {
        '5'
    } else if d == 6 {
        '6'
    } else if d == 7 {
        '7'
    } else if d == 8 {
        '8'
    } else {
        '9'
    };
    assert(c == digit_char((n % 10) as nat));
    if n < 10 {
        let mut v: Vec<char> = Vec::new();
        v.push(c);
        assert(v@ =~= decimal(n as nat));
        v
    } else {
        let mut v = decimal_chars(n / 10);
        v.push(c);
        assert(v@ =~= decimal(n as nat));
        v
    }
}

/// The decimal rendering of `n`, as `u64::to_string` gives it.
pub fn u64_decimal(n: u64) -> (res: String)
    ensures
        res@ == decimal(n as nat),
{
    let v = decimal_chars(n);
    string_from_chars(v.as_slice())
}

/// The decimal rendering of `n`, as `i64::to_string` gives it.
pub fn i64_decimal(n: i64) -> (res: String)
    ensures
        res@ == signed_decimal(n as int),
{
    if n < 0 {
        let m: u64 = ((-(n + 1)) as u64) + 1;
        let mut v: Vec<char> = Vec::new();
        v.push('-');
        let mut d = decimal_chars(m);
        v.append(&mut d);
        assert(v@ =~= signed_decimal(n as int));
        string_from_chars(v.as_slice())
    } else {
        u64_decimal(n as u64)
    }
}


// ---------------------------------------------------------------------------
// Searching
// ---------------------------------------------------------------------------

/// `pat` occurs in `s` at character position `i`.
pub open spec fn occurs_at(s: Seq<char>, pat: Seq<char>, i: int) -> bool {
    0 <= i && i + pat.len() <= s.len() && s.subrange(i, i + pat.len()) == pat
}

/// The first position at or after `i` where `pat` occurs in `s`.
pub open spec fn find_from(s: Seq<char>, pat: Seq<char>, i: int) -> Option<nat>
    decreases s.len() + 1 - i,
{
    if i < 0 || i + pat.len() > s.len() {
        None
    } else if occurs_at(s, pat, i) {
        Some(i as nat)
    } else {
        find_from(s, pat, i + 1)
    }
}

/// The first position where `pat` occurs in `s`.
pub open spec fn find_spec(s: Seq<char>, pat: Seq<char>) -> Option<nat> {
    find_from(s, pat, 0)
}

/// `pat` occurs somewhere in `s`.
pub open spec fn contains_spec(s: Seq<char>, pat: Seq<char>) -> bool {
    find_spec(s, pat) is Some
}

/// What `find_from` returns: the first occurrence at or after `i`.
pub proof fn lemma_find_from(s: Seq<char>, pat: Seq<char>, i: int)
    requires
        0 <= i,
    ensures
        match find_from(s, pat, i) {
            Some(j) => i <= j && occurs_at(s, pat, j as int) && forall|m: int|
                i <= m < j ==> !occurs_at(s, pat, m),
            None => forall|m: int| i <= m ==> !occurs_at(s, pat, m),
        },
    decreases s.len() + 1 - i,
{
    if i + pat.len() <= s.len() && !occurs_at(s, pat, i) {
        lemma_find_from(s, pat, i + 1);
    }
}

/// An occurrence with none before it is the first.
pub proof fn lemma_find_first(s: Seq<char>, pat: Seq<char>, j: int)
    requires
        occurs_at(s, pat, j),
        forall|m: int| 0 <= m < j ==> !occurs_at(s, pat, m),
    ensures
        find_spec(s, pat) == Some(j as nat),
{
    lemma_find_from(s, pat, 0);
}

/// Any occurrence makes `pat` found.
pub proof fn lemma_occurs_contains(s: Seq<char>, pat: Seq<char>, j: int)
    requires
        occurs_at(s, pat, j),
    ensures
        contains_spec(s, pat),
{
    lemma_find_from(s, pat, 0);
}

/// A text holds itself.
pub proof fn lemma_contains_self(pat: Seq<char>)
    ensures
        contains_spec(pat, pat),
{
    assert(pat.subrange(0, pat.len() as int) =~= pat);
    lemma_occurs_contains(pat, pat, 0);
}

/// What occurs in `y` occurs in any text that holds `y`.
pub proof fn lemma_contains_within(x: Seq<char>, y: Seq<char>, z: Seq<char>, pat: Seq<char>)
    requires
        contains_spec(y, pat),
    ensures
        contains_spec(x + y + z, pat),
{
    lemma_find_from(y, pat, 0);
    let j = (find_spec(y, pat)->0) as int;
    let s = x + y + z;
    assert(s.subrange(x.len() + j, x.len() + j + pat.len()) =~= y.subrange(j, j + pat.len()));
    lemma_occurs_contains(s, pat, x.len() + j);
}

/// The first position where `pat` occurs in `s`.
pub fn find_chars(s: &Vec<char>, pat: &Vec<char>) -> (res: Option<usize>)
    ensures
        match res {
            Some(r) => find_spec(s@, pat@) == Some(r as nat),
            None => find_spec(s@, pat@) is None,
        },
{
    proof {
        lemma_find_from(s@, pat@, 0);
    }
    if pat.len() > s.len() {
        return None;
    }
    let n = s.len();
    let last = n - pat.len();
    let mut i: usize = 0;
    while i <= last
        invariant
            n == s@.len(),
            last + pat@.len() == s@.len(),
            i <= last + 1,
            forall|m: int| 0 <= m < i ==> !occurs_at(s@, pat@, m),
        decreases last + 1 - i,
    {
        let mut k: usize = 0;
        let mut same = true;
        while k < pat.len()
            invariant
                n == s@.len(),
                i <= last,
                last + pat@.len() == s@.len(),
                k <= pat@.len(),
                same == forall|q: int| 0 <= q < k ==> s@[i + q] == pat@[q],
            decreases pat@.len() - k,
        {
            if s[i + k] != pat[k] {
                same = false;
            }
            k = k + 1;
        }
        if same {
            assert(s@.subrange(i as int, i + pat@.len()) =~= pat@);
            proof {
                lemma_find_first(s@, pat@, i as int);
            }
            return Some(i);
        }
        proof {
            if occurs_at(s@, pat@, i as int) {
                assert forall|q: int| 0 <= q < pat@.len() implies s@[i + q] == pat@[q] by {
                    assert(s@.subrange(i as int, i + pat@.len())[q] == s@[i + q]);
                }
            }
        }
        i = i + 1;
    }
    proof {
        assert forall|m: int| 0 <= m implies !occurs_at(s@, pat@, m) by {
            if m >= i {
                assert(m + pat@.len() > s@.len());
            }
        }
    }
    None
}


// ---------------------------------------------------------------------------
// Reading decimal digits
// ---------------------------------------------------------------------------

/// Every character is an ASCII digit.
pub open spec fn all_ascii_digits(ds: Seq<char>) -> bool {
    forall|i: int| 0 <= i < ds.len() ==> ascii_digit(#[trigger] ds[i])
}

/// The value of a string of ASCII digits.
pub open spec fn digits_value(ds: Seq<char>) -> nat
    decreases ds.len(),
{
    if ds.len() == 0 {
        0
    } else {
        digits_value(ds.drop_last()) * 10 + ((ds.last() as u32) - ('0' as u32)) as nat
    }
}

/// A prefix of a string of ASCII digits has no greater value.
pub proof fn lemma_digits_value_prefix(ds: Seq<char>, k: int)
    requires
        0 <= k <= ds.len(),
        all_ascii_digits(ds),
    ensures
        digits_value(ds.take(k)) <= digits_value(ds),
    decreases ds.len(),
{
    if k < ds.len() {
        assert(all_ascii_digits(ds.drop_last()));
        lemma_digits_value_prefix(ds.drop_last(), k);
        assert(ds.drop_last().take(k) =~= ds.take(k));
    } else {
        assert(ds.take(k) =~= ds);
    }
}

} // verus!
