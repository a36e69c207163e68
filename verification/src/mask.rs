//! Protected regions: fenced code, inline code and URLs are swapped for
//! placeholders before compression and put back afterwards.
//!
//! The passes run one after the other on the text the previous pass left,
//! so a later match may run on into a placeholder; it is cut at the
//! placeholder's first NUL, and a placeholder is never taken apart.
//!
//! A placeholder is a NUL, the letter `B`, the decimal index of the block
//! and another NUL. Putting blocks back follows the placeholder syntax
//! `\x00B(\d+)\x00` scanned from the left: the digits are Unicode decimal
//! digits, the index is read as a `usize` (any index that does not parse as
//! one counts as 0) and an index with no block puts back nothing.
use vstd::prelude::*;
use vstd::string::{StrSliceExecFns, StringSliceAdditionalSpecFns};
use vstd::utf8::*;

use crate::pattern::{
    is_match_result, match_spans, pattern_compiles, regex_error, regex_find_spans, regex_is_match,
    spans_well_formed, REGEX_ERROR,
};
use crate::text::{
    all_ascii_digits, ascii_digit, chars_of, contains_spec, decimal, decimal_chars, digit_char,
    digits_value, is_ascii_char, lemma_contains_self, lemma_contains_within,
    lemma_digits_value_prefix, string_from_chars,
};

verus! {

broadcast use {encode_utf8_decode_utf8, encode_utf8_valid_utf8};

/// Fenced code blocks, across lines.
pub const FENCED_CODE: &'static str = r"(?s)```[\s\S]*?```";

/// Inline code on one line.
pub const INLINE_CODE: &'static str = r"`[^`\n]+`";

/// URLs.
pub const URL: &'static str = r"https?://\S+";

/// A single Unicode decimal digit (the `\d` of the placeholder syntax).
pub const INDEX_DIGIT: &'static str = r"\A\d\z";

/// A text with its protected regions replaced by placeholders, and the
/// regions themselves in placeholder order.
pub struct MaskedText {
    pub masked: String,
    pub blocks: Vec<String>,
}

/// The character views of a list of strings.
pub open spec fn string_views(v: Seq<String>) -> Seq<Seq<char>> {
    v.map_values(|s: String| s@)
}

/// The placeholder for block `k`.
pub open spec fn placeholder(k: nat) -> Seq<char> {
    seq!['\0', 'B'] + decimal(k) + seq!['\0']
}

/// The characters that bytes `lo..hi` of `b` encode.
pub open spec fn piece(b: Seq<u8>, lo: int, hi: int) -> Seq<char> {
    decode_utf8(b.subrange(lo, hi))
}

/// The text from byte `off` on, with each span replaced by the placeholder
/// for the next block index, counting from `k`.
pub open spec fn mask_from(b: Seq<u8>, spans: Seq<(usize, usize)>, off: int, k: nat) -> Seq<char>
    decreases spans.len(),
{
    if spans.len() == 0 {
        piece(b, off, b.len() as int)
    } else {
        piece(b, off, spans[0].0 as int) + placeholder(k) + mask_from(
            b,
            spans.drop_first(),
            spans[0].1 as int,
            k + 1,
        )
    }
}

/// The text of each span.
pub open spec fn span_pieces(b: Seq<u8>, spans: Seq<(usize, usize)>) -> Seq<Seq<char>> {
    spans.map_values(|s: (usize, usize)| piece(b, s.0 as int, s.1 as int))
}

/// The first position in `lo..hi` where `b` holds a zero byte, or `hi`.
pub open spec fn first_zero(b: Seq<u8>, lo: int, hi: int) -> int
    decreases hi - lo,
{
    if lo >= hi {
        hi
    } else if b[lo] == 0 {
        lo
    } else {
        first_zero(b, lo + 1, hi)
    }
}

/// The part of a match that is masked: the match cut at its first NUL
/// (only a placeholder or the input itself holds one), kept only when it
/// is not empty and begins with a character that cannot stand inside a
/// placeholder. A match that runs on into a placeholder thus leaves the
/// placeholder whole.
pub open spec fn guard_span(b: Seq<u8>, span: (usize, usize)) -> Option<(usize, usize)> {
    let k = first_zero(b, span.0 as int, span.1 as int);
    let m = piece(b, span.0 as int, k);
    if m.len() > 0 && outside_placeholder(m[0]) {
        Some((span.0, k as usize))
    } else {
        None
    }
}

/// The matches of `spans` that are masked, each as `guard_span` keeps it.
pub open spec fn guarded_spans(b: Seq<u8>, spans: Seq<(usize, usize)>) -> Seq<(usize, usize)>
    decreases spans.len(),
{
    if spans.len() == 0 {
        Seq::empty()
    } else {
        let front = guarded_spans(b, spans.drop_last());
        match guard_span(b, spans.last()) {
            Some(g) => front.push(g),
            None => front,
        }
    }
}

/// One masking pass of `pattern` over `t`, numbering blocks from `start`:
/// the masked text and the blocks it took out.
pub open spec fn pass_spec(t: Seq<char>, pattern: Seq<char>, start: nat) -> (
    Seq<char>,
    Seq<Seq<char>>,
) {
    let b = encode_utf8(t);
    let sp = guarded_spans(b, match_spans(pattern, t));
    (mask_from(b, sp, 0, start), span_pieces(b, sp))
}

/// The pattern compiles, and its matches on `t` are spans of `t` as
/// `find_iter` yields them.
pub open spec fn pass_ok(t: Seq<char>, pattern: Seq<char>) -> bool {
    pattern_compiles(pattern) && spans_well_formed(match_spans(pattern, t), t)
}

/// Fenced code, then inline code, then URLs are masked; `None` when one of
/// the patterns does not compile.
pub open spec fn mask_spec(t: Seq<char>) -> Option<(Seq<char>, Seq<Seq<char>>)> {
    let p1 = pass_spec(t, FENCED_CODE@, 0);
    let p2 = pass_spec(p1.0, INLINE_CODE@, p1.1.len());
    let p3 = pass_spec(p2.0, URL@, p1.1.len() + p2.1.len());
    if pass_ok(t, FENCED_CODE@) && pass_ok(p1.0, INLINE_CODE@) && pass_ok(p2.0, URL@) {
        Some((p3.0, p1.1 + p2.1 + p3.1))
    } else {
        None
    }
}

// ---------------------------------------------------------------------------
// UTF-8 slicing facts
// ---------------------------------------------------------------------------

/// A character boundary of `b` at or after `off` is a boundary of the suffix
/// that starts at `off`.
proof fn lemma_boundary_in_suffix(b: Seq<u8>, off: int, x: int)
    requires
        valid_utf8(b),
        is_char_boundary(b, off),
        is_char_boundary(b, x),
        0 <= off <= x <= b.len(),
    ensures
        valid_utf8(b.subrange(off, b.len() as int)),
        is_char_boundary(b.subrange(off, b.len() as int), x - off),
{
    broadcast use {valid_utf8_split, is_char_boundary_start_end_of_seq};

    let suf = b.subrange(off, b.len() as int);
    assert(valid_utf8(suf));
    if x == b.len() {
        assert(x - off == suf.len());
    } else {
        is_char_boundary_iff_not_is_continuation_byte(b, x);
        is_char_boundary_iff_not_is_continuation_byte(suf, x - off);
        assert(suf[x - off] == b[x]);
    }
}

/// Decoding byte ranges `lo..mid` and `mid..hi` and concatenating gives the
/// decoding of `lo..hi`, when all three are character boundaries.
proof fn lemma_piece_split(b: Seq<u8>, lo: int, mid: int, hi: int)
    requires
        valid_utf8(b),
        0 <= lo <= mid <= hi <= b.len(),
        is_char_boundary(b, lo),
        is_char_boundary(b, mid),
        is_char_boundary(b, hi),
    ensures
        piece(b, lo, hi) == piece(b, lo, mid) + piece(b, mid, hi),
{
    broadcast use {valid_utf8_split, is_char_boundary_start_end_of_seq};

    lemma_boundary_in_suffix(b, lo, hi);
    let suf = b.subrange(lo, b.len() as int);
    valid_utf8_split(suf, hi - lo);
    let part = suf.subrange(0, hi - lo);
    assert(part =~= b.subrange(lo, hi));
    lemma_boundary_in_suffix(b, lo, mid);
    // `mid - lo` is a boundary of `part`, a prefix of `suf` ending on a boundary.
    assert(is_char_boundary(part, mid - lo)) by {
        if mid == hi {
            is_char_boundary_start_end_of_seq(part);
        } else {
            is_char_boundary_iff_not_is_continuation_byte(suf, mid - lo);
            is_char_boundary_iff_not_is_continuation_byte(part, mid - lo);
            assert(part[mid - lo] == suf[mid - lo]);
        }
    }
    decode_utf8_split(part, mid - lo);
    assert(part.subrange(0, mid - lo) =~= b.subrange(lo, mid));
    assert(part.subrange(mid - lo, part.len() as int) =~= b.subrange(mid, hi));
}

/// Bytes `lo..hi` of `b`, between two character boundaries, are valid UTF-8.
proof fn lemma_valid_piece(b: Seq<u8>, lo: int, hi: int)
    requires
        valid_utf8(b),
        0 <= lo <= hi <= b.len(),
        is_char_boundary(b, lo),
        is_char_boundary(b, hi),
    ensures
        valid_utf8(b.subrange(lo, hi)),
{
    broadcast use valid_utf8_split;

    lemma_boundary_in_suffix(b, lo, hi);
    let suf = b.subrange(lo, b.len() as int);
    valid_utf8_split(suf, hi - lo);
    assert(suf.subrange(0, hi - lo) =~= b.subrange(lo, hi));
}

/// What `first_zero` finds: no zero byte before it, and a zero byte at it
/// unless it is the end of the range.
proof fn lemma_first_zero(b: Seq<u8>, lo: int, hi: int)
    requires
        0 <= lo <= hi <= b.len(),
    ensures
        lo <= first_zero(b, lo, hi) <= hi,
        forall|m: int| lo <= m < first_zero(b, lo, hi) ==> b[m] != 0,
        first_zero(b, lo, hi) < hi ==> b[first_zero(b, lo, hi)] == 0,
    decreases hi - lo,
{
    if lo < hi && b[lo] != 0 {
        lemma_first_zero(b, lo + 1, hi);
    }
}

/// A NUL character is encoded as a zero byte.
proof fn lemma_nul_byte(c: Seq<char>, i: int) -> (j: int)
    requires
        0 <= i < c.len(),
        c[i] == '\0',
    ensures
        0 <= j < encode_utf8(c).len(),
        encode_utf8(c)[j] == 0,
    decreases i,
{
    let e0 = encode_scalar(c[0] as u32);
    let rest = c.drop_first();
    assert(encode_utf8(c) == e0 + encode_utf8(rest));
    if i == 0 {
        assert(c[0] as u32 == 0);
        assert((0u32 & 0x7Fu32) as u8 == 0u8) by (bit_vector);
        assert(e0 == seq![0u8]);
        0
    } else {
        assert(rest[i - 1] == c[i]);
        let j = lemma_nul_byte(rest, i - 1);
        e0.len() + j
    }
}

/// Valid UTF-8 without a zero byte decodes to characters without NUL.
proof fn lemma_zero_free_no_nul(bytes: Seq<u8>)
    requires
        valid_utf8(bytes),
        forall|m: int| 0 <= m < bytes.len() ==> bytes[m] != 0,
    ensures
        no_nul(decode_utf8(bytes)),
{
    let c = decode_utf8(bytes);
    decode_utf8_encode_utf8(bytes);
    assert forall|i: int| 0 <= i < c.len() implies c[i] != '\0' by {
        if c[i] == '\0' {
            let j = lemma_nul_byte(c, i);
            assert(bytes[j] == 0);
        }
    }
}

/// The spans that `guard_span` keeps are spans of the text in order, each
/// ending no later than the last match, and the text of each is a block
/// that can be put back.
proof fn lemma_guarded_spans(t: Seq<char>, sp: Seq<(usize, usize)>)
    requires
        spans_well_formed(sp, t),
    ensures
        spans_well_formed(guarded_spans(encode_utf8(t), sp), t),
        guarded_spans(encode_utf8(t), sp).len() <= sp.len(),
        forall|i: int|
            0 <= i < guarded_spans(encode_utf8(t), sp).len() ==> restorable(
                piece(
                    encode_utf8(t),
                    (#[trigger] guarded_spans(encode_utf8(t), sp)[i]).0 as int,
                    guarded_spans(encode_utf8(t), sp)[i].1 as int,
                ),
            ),
        sp.len() > 0 ==> forall|i: int|
            0 <= i < guarded_spans(encode_utf8(t), sp).len() ==> (#[trigger] guarded_spans(
                encode_utf8(t),
                sp,
            )[i]).1 <= sp.last().1,
    decreases sp.len(),
{
    broadcast use is_char_boundary_start_end_of_seq;

    let b = encode_utf8(t);
    if sp.len() > 0 {
        let front = sp.drop_last();
        assert forall|i: int| 0 <= i < front.len() implies {
            &&& (#[trigger] front[i]).0 <= front[i].1
            &&& front[i].1 <= b.len()
            &&& is_char_boundary(b, front[i].0 as int)
            &&& is_char_boundary(b, front[i].1 as int)
        } by {
            assert(front[i] == sp[i]);
        }
        assert forall|i: int, j: int| 0 <= i < j < front.len() implies front[i].1 <= front[j].0 by {
            assert(front[i] == sp[i] && front[j] == sp[j]);
        }
        lemma_guarded_spans(t, front);
        let g0 = guarded_spans(b, front);
        let (s, e) = sp.last();
        let n = sp.len() - 1;
        assert(sp[n] == sp.last());
        if front.len() > 0 {
            assert(front.last() == sp[n - 1]);
            assert(sp[n - 1].1 <= sp[n].0);
        }
        lemma_first_zero(b, s as int, e as int);
        let k = first_zero(b, s as int, e as int);
        match guard_span(b, sp.last()) {
            Some(x) => {
                let g = g0.push(x);
                assert(x == (s, k as usize));
                assert(is_char_boundary(b, k)) by {
                    if k < e {
                        is_char_boundary_iff_not_is_continuation_byte(b, k);
                    }
                }
                lemma_valid_piece(b, s as int, k);
                let bs = b.subrange(s as int, k);
                assert forall|m: int| 0 <= m < bs.len() implies bs[m] != 0 by {
                    assert(bs[m] == b[s + m]);
                }
                lemma_zero_free_no_nul(bs);
                assert forall|i: int| 0 <= i < g.len() implies {
                    &&& (#[trigger] g[i]).0 <= g[i].1
                    &&& g[i].1 <= b.len()
                    &&& is_char_boundary(b, g[i].0 as int)
                    &&& is_char_boundary(b, g[i].1 as int)
                } by {
                    if i < g0.len() {
                        assert(g[i] == g0[i]);
                    }
                }
                assert forall|i: int, j: int| 0 <= i < j < g.len() implies g[i].1 <= g[j].0 by {
                    if j < g0.len() {
                        assert(g[i] == g0[i] && g[j] == g0[j]);
                    } else {
                        assert(g[i] == g0[i]);
                        assert(g0[i].1 <= front.last().1);
                    }
                }
                assert forall|i: int| 0 <= i < g.len() implies restorable(
                    piece(b, (#[trigger] g[i]).0 as int, g[i].1 as int),
                ) by {
                    if i < g0.len() {
                        assert(g[i] == g0[i]);
                    }
                }
                assert forall|i: int| 0 <= i < g.len() implies (#[trigger] g[i]).1 <= sp.last().1 by {
                    if i < g0.len() {
                        assert(g[i] == g0[i]);
                        assert(g0[i].1 <= front.last().1);
                    }
                }
            },
            None => {
                assert forall|i: int| 0 <= i < g0.len() implies (#[trigger] g0[i]).1
                    <= sp.last().1 by {
                    assert(g0[i].1 <= front.last().1);
                }
            },
        }
    }
}

/// The matches of `found` that are masked, as `guarded_spans` gives them.
fn guard_spans(text: &str, found: &Vec<(usize, usize)>) -> (res: Vec<(usize, usize)>)
    requires
        spans_well_formed(found@, text@),
    ensures
        res@ == guarded_spans(encode_utf8(text@), found@),
{
    broadcast use is_char_boundary_start_end_of_seq;

    let bytes = text.as_bytes();
    let ghost b = encode_utf8(text@);
    let mut out: Vec<(usize, usize)> = Vec::new();
    let mut i: usize = 0;
    assert(found@.take(0) =~= Seq::<(usize, usize)>::empty());
    while i < found.len()
        invariant
            0 <= i <= found@.len(),
            bytes@ == b,
            b == encode_utf8(text@),
            spans_well_formed(found@, text@),
            out@ == guarded_spans(b, found@.take(i as int)),
        decreases found@.len() - i,
    {
        let (s, e) = found[i];
        assert(found@[i as int] == (s, e));
        let mut k: usize = s;
        while k < e && bytes[k] != 0
            invariant
                s <= k <= e,
                e <= b.len(),
                bytes@ == b,
                first_zero(b, s as int, e as int) == first_zero(b, k as int, e as int),
            decreases e - k,
        {
            k = k + 1;
        }
        proof {
            lemma_first_zero(b, s as int, e as int);
            if k < e {
                is_char_boundary_iff_not_is_continuation_byte(b, k as int);
            }
            lemma_boundary_in_suffix(b, s as int, k as int);
        }
        let (_, from_s) = text.split_at(s);
        let (m, _) = from_s.split_at(k - s);
        proof {
            assert(m.spec_bytes() =~= b.subrange(s as int, k as int));
            assert(m@ == decode_utf8(encode_utf8(m@)));
        }
        let ghost before = out@;
        if !m.is_empty() {
            let c = m.get_char(0);
            if c != '\0' && c != 'B' && !is_index_digit(c) {
                out.push((s, k));
            }
        }
        proof {
            let tk = found@.take(i + 1);
            assert(tk.drop_last() =~= found@.take(i as int));
            assert(tk.last() == (s, e));
            assert(first_zero(b, s as int, e as int) == k);
            assert(piece(b, s as int, k as int) == m@);
        }
        i = i + 1;
    }
    assert(found@.take(i as int) =~= found@);
    out
}

// ---------------------------------------------------------------------------
// Masking
// ---------------------------------------------------------------------------

/// The placeholder for block `k` as a string.
fn placeholder_string(k: usize) -> (res: String)
    ensures
        res@ == placeholder(k as nat),
{
    let mut v: Vec<char> = Vec::new();
    v.push('\0');
    v.push('B');
    let mut d = decimal_chars(k as u64);
    v.append(&mut d);
    v.push('\0');
    assert(v@ =~= placeholder(k as nat));
    string_from_chars(v.as_slice())
}

#[verifier::rlimit(40)]
/// One masking pass: every match of `pattern` in `text`, as `guard_span`
/// keeps it, becomes a placeholder numbered after the blocks already in
/// `blocks`, and its text is appended to `blocks`. Fails, leaving `blocks` as it was, when the
/// pattern does not compile.
pub fn mask_pass(pattern: &str, text: &str, blocks: &mut Vec<String>) -> (res: Result<String, String>)
    ensures
        res is Ok <==> pattern_compiles(pattern@),
        res is Ok ==> spans_well_formed(match_spans(pattern@, text@), text@),
        res matches Ok(s) ==> {
            let p = pass_spec(text@, pattern@, old(blocks)@.len());
            &&& s@ == p.0
            &&& string_views(final(blocks)@) == string_views(old(blocks)@) + p.1
        },
        res matches Ok(s) ==> (no_nul(text@) ==> unmask_spec(s@, string_views(final(blocks)@))
            == text@),
        res matches Err(e) ==> e@ == REGEX_ERROR@ && final(blocks)@ == old(blocks)@,
{
    let found = match regex_find_spans(pattern, text) {
        Some(v) => v,
        None => {
            return Err(regex_error());
        },
    };
    let spans = guard_spans(text, &found);
    let ghost b = encode_utf8(text@);
    proof {
        lemma_guarded_spans(text@, found@);
    }
    let ghost sp = spans@;
    let ghost start = old(blocks)@.len();
    let ghost old_views = string_views(blocks@);
    assert(b.subrange(0, b.len() as int) =~= b);
    proof {
        is_char_boundary_start_end_of_seq(b);
    }
    let mut out = String::new();
    let mut rest: &str = text;
    let mut off: usize = 0;
    let mut i: usize = 0;
    assert(sp.skip(0) =~= sp);
    while i < spans.len()
        invariant
            0 <= i <= sp.len(),
            sp == spans@,
            sp == guarded_spans(b, match_spans(pattern@, text@)),
            spans_well_formed(sp, text@),
            forall|j: int|
                0 <= j < sp.len() ==> restorable(
                    piece(b, (#[trigger] sp[j]).0 as int, sp[j].1 as int),
                ),
            b == encode_utf8(text@),
            valid_utf8(b),
            off <= b.len(),
            is_char_boundary(b, off as int),
            i < sp.len() ==> off <= sp[i as int].0,
            forall|j: int| i <= j < sp.len() ==> off <= #[trigger] sp[j].0,
            rest.spec_bytes() == b.subrange(off as int, b.len() as int),
            out@ + mask_from(b, sp.skip(i as int), off as int, (start + i) as nat) == mask_from(
                b,
                sp,
                0,
                start as nat,
            ),
            blocks@.len() == start + i,
            string_views(blocks@) == old_views + span_pieces(b, sp.take(i as int)),
        decreases sp.len() - i,
    {
        let (s, e) = spans[i];
        assert(sp[i as int] == (s, e));
        assert(is_char_boundary(b, s as int) && is_char_boundary(b, e as int) && s <= e);
        proof {
            lemma_boundary_in_suffix(b, off as int, s as int);
        }
        let (gap, tail) = rest.split_at(s - off);
        proof {
            assert(gap.spec_bytes() =~= b.subrange(off as int, s as int));
            assert(tail.spec_bytes() =~= b.subrange(s as int, b.len() as int));
            lemma_boundary_in_suffix(b, s as int, e as int);
        }
        let (m, tail2) = tail.split_at(e - s);
        proof {
            assert(m.spec_bytes() =~= b.subrange(s as int, e as int));
            assert(tail2.spec_bytes() =~= b.subrange(e as int, b.len() as int));
            assert(gap@ == decode_utf8(encode_utf8(gap@)));
            assert(gap@ == piece(b, off as int, s as int));
            assert(m@ == decode_utf8(encode_utf8(m@)));
            assert(m@ == piece(b, s as int, e as int));
        }
        let ph = placeholder_string(blocks.len());
        let ghost before = out@;
        let ghost prev_blocks = blocks@;
        out.append(gap);
        out.append(ph.as_str());
        blocks.push(crate::text::to_owned_string(m));
        proof {
            let rest_sp = sp.skip(i as int);
            assert(rest_sp[0] == sp[i as int]);
            assert(rest_sp.drop_first() =~= sp.skip(i + 1));
            assert(out@ =~= before + piece(b, off as int, s as int) + placeholder((start + i) as nat));
            assert(sp.take(i + 1) =~= sp.take(i as int).push(sp[i as int]));
            assert(span_pieces(b, sp.take(i + 1)) =~= span_pieces(b, sp.take(i as int)).push(
                piece(b, s as int, e as int),
            ));
            assert(string_views(blocks@) =~= string_views(prev_blocks).push(m@));
        }
        rest = tail2;
        off = e;
        i = i + 1;
        proof {
            if i < sp.len() {
                assert(sp[i - 1].1 <= sp[i as int].0);
            }
            assert forall|j: int| i <= j < sp.len() implies off <= #[trigger] sp[j].0 by {
                assert(sp[i - 1].1 <= sp[j].0);
            }
        }
    }
    assert(sp.skip(i as int) =~= Seq::<(usize, usize)>::empty());
    assert(sp.take(i as int) =~= sp);
    assert(rest@ == decode_utf8(encode_utf8(rest@)));
    out.append(rest);
    let total = blocks.len();
    proof {
        assert(total as int == blocks@.len());
        let bv = string_views(blocks@);
        assert(text@ == decode_utf8(b));
        assert(piece(b, 0, b.len() as int) == text@);
        if no_nul(text@) {
            assert forall|j: int| 0 <= j < sp.len() implies block_at(bv, (start + j) as nat)
                == piece(b, (#[trigger] sp[j]).0 as int, sp[j].1 as int) by {
                assert(bv[start + j] == span_pieces(b, sp)[j]);
            }
            lemma_plain_masked(text@, bv);
            assert(b.subrange(0, b.len() as int) =~= b);
            lemma_pass_keeps_unmasked(b, sp, 0, start as nat, bv);
        }
    }
    Ok(out)
}

// ---------------------------------------------------------------------------
// Unmasking plain text and single placeholders
// ---------------------------------------------------------------------------

/// `s` holds no NUL character.
pub open spec fn no_nul(s: Seq<char>) -> bool {
    forall|i: int| 0 <= i < s.len() ==> s[i] != '\0'
}

proof fn lemma_decimal_digits(k: nat)
    ensures
        all_ascii_digits(decimal(k)),
        digits_value(decimal(k)) == k,
        decimal(k).len() >= 1,
    decreases k,
{
    if k >= 10 {
        lemma_decimal_digits(k / 10);
        let d = decimal(k);
        assert(d.drop_last() =~= decimal(k / 10));
        assert(d.last() == digit_char(k % 10));
        assert(((digit_char(k % 10) as u32) - ('0' as u32)) as nat == k % 10);
        assert(digits_value(d) == digits_value(d.drop_last()) * 10 + ((d.last() as u32) - (
        '0' as u32)) as nat);
        assert((k / 10) * 10 + k % 10 == k) by (nonlinear_arith);
    } else {
        assert(decimal(k) == seq![digit_char(k)]);
        assert(decimal(k).drop_last() =~= Seq::<char>::empty());
        assert(((digit_char(k) as u32) - ('0' as u32)) as nat == k);
        let d = decimal(k);
        assert(digits_value(d) == digits_value(d.drop_last()) * 10 + ((d.last() as u32) - (
        '0' as u32)) as nat);
        assert(digits_value(d.drop_last()) == 0);
    }
}

/// Characters other than NUL pass through unmasking one by one.
proof fn lemma_unmask_plain(g: Seq<char>, r: Seq<char>, blocks: Seq<Seq<char>>)
    requires
        no_nul(g),
    ensures
        unmask_spec(g + r, blocks) == g + unmask_spec(r, blocks),
    decreases g.len(),
{
    if g.len() > 0 {
        let s = g + r;
        assert(s[0] == g[0]);
        assert(placeholder_len(s) is None);
        assert(s.drop_first() =~= g.drop_first() + r);
        lemma_unmask_plain(g.drop_first(), r, blocks);
        assert(g =~= seq![g[0]] + g.drop_first());
    } else {
        assert(g + r =~= r);
    }
}

/// The placeholder for block `k` is read back as one placeholder naming
/// block `k`, whatever follows it.
proof fn lemma_placeholder_parse(k: nat, r: Seq<char>)
    ensures
        placeholder_len(placeholder(k) + r) == Some(placeholder(k).len()),
        (placeholder(k) + r).skip(placeholder(k).len() as int) == r,
        k <= usize::MAX ==> parse_index((placeholder(k) + r).subrange(2, placeholder(k).len() - 1))
            == k,
{
    let d = decimal(k);
    lemma_decimal_digits(k);
    let s = placeholder(k) + r;
    let q: int = 2 + d.len() as int;
    assert forall|m: int| 2 <= m < q implies index_digit(#[trigger] s[m]) by {
        assert(s[m] == d[m - 2]);
        assert(ascii_digit(d[m - 2]));
    }
    assert(s[q] == '\0');
    lemma_digit_run_exact(s, 2, q);
    assert(placeholder_len(s) == Some((d.len() + 3) as nat));
    assert(s.subrange(2, q) =~= d);
    assert(s.skip(q + 1) =~= r);
}

/// A placeholder is replaced by its block.
proof fn lemma_unmask_placeholder(k: nat, r: Seq<char>, blocks: Seq<Seq<char>>)
    requires
        k <= usize::MAX,
    ensures
        unmask_spec(placeholder(k) + r, blocks) == block_at(blocks, k) + unmask_spec(r, blocks),
{
    lemma_placeholder_parse(k, r);
}

// ---------------------------------------------------------------------------
// Round trip of all passes
// ---------------------------------------------------------------------------

/// `s` is made of characters other than NUL and of whole placeholders.
pub open spec fn well_masked(s: Seq<char>) -> bool
    decreases s.len(),
{
    if s.len() == 0 {
        true
    } else if s[0] != '\0' {
        well_masked(s.drop_first())
    } else {
        match placeholder_len(s) {
            Some(n) => if 0 < n <= s.len() {
                well_masked(s.skip(n as int))
            } else {
                false
            },
            None => false,
        }
    }
}

/// A character that cannot stand inside a placeholder after its opening NUL.
pub open spec fn outside_placeholder(c: char) -> bool {
    c != '\0' && c != 'B' && !index_digit(c)
}

/// A block that can be put back after a later pass took it out of a masked
/// text: it is not empty, holds no NUL and does not begin with a character
/// that can stand inside a placeholder.
pub open spec fn restorable(block: Seq<char>) -> bool {
    block.len() > 0 && no_nul(block) && outside_placeholder(block[0])
}

proof fn lemma_digit_run_facts(s: Seq<char>, p: int)
    requires
        0 <= p <= s.len(),
    ensures
        p + digit_run(s, p) <= s.len(),
        forall|m: int| p <= m < p + digit_run(s, p) ==> index_digit(#[trigger] s[m]),
        p + digit_run(s, p) < s.len() ==> !index_digit(s[p + digit_run(s, p)]),
    decreases s.len() - p,
{
    if p < s.len() && index_digit(s[p]) {
        lemma_digit_run_facts(s, p + 1);
    }
}

/// A placeholder at the start of `s` is read the same way from any `t` that
/// begins with the same characters.
proof fn lemma_placeholder_same_prefix(s: Seq<char>, t: Seq<char>, n: nat)
    requires
        placeholder_len(s) == Some(n),
        n <= t.len(),
        forall|i: int| 0 <= i < n ==> t[i] == s[i],
    ensures
        placeholder_len(t) == Some(n),
        t.subrange(2, n - 1) == s.subrange(2, n - 1),
{
    let d = digit_run(s, 2) as int;
    lemma_digit_run_facts(s, 2);
    assert forall|m: int| 2 <= m < 2 + d implies index_digit(#[trigger] t[m]) by {
        assert(t[m] == s[m]);
    }
    assert(t[2 + d] == s[2 + d]);
    lemma_digit_run_exact(t, 2, 2 + d);
    assert(t[0] == s[0] && t[1] == s[1]);
    assert(t.subrange(2, n - 1) =~= s.subrange(2, n - 1));
}

/// Text without NUL is well masked and comes back unchanged from unmasking.
proof fn lemma_plain_masked(g: Seq<char>, blocks: Seq<Seq<char>>)
    requires
        no_nul(g),
    ensures
        well_masked(g),
        unmask_spec(g, blocks) == g,
    decreases g.len(),
{
    if g.len() > 0 {
        lemma_plain_masked(g.drop_first(), blocks);
    }
    lemma_unmask_plain(g, Seq::empty(), blocks);
    assert(g + Seq::<char>::empty() =~= g);
    assert(unmask_spec(Seq::<char>::empty(), blocks) =~= Seq::<char>::empty());
}

/// Well-masked texts concatenate to a well-masked text, and unmasking
/// distributes over the concatenation.
proof fn lemma_masked_concat(x: Seq<char>, y: Seq<char>, blocks: Seq<Seq<char>>)
    requires
        well_masked(x),
        well_masked(y),
    ensures
        well_masked(x + y),
        unmask_spec(x + y, blocks) == unmask_spec(x, blocks) + unmask_spec(y, blocks),
    decreases x.len(),
{
    let s = x + y;
    if x.len() == 0 {
        assert(s =~= y);
        assert(unmask_spec(x, blocks) =~= Seq::<char>::empty());
    } else if x[0] != '\0' {
        assert(s[0] == x[0]);
        assert(s.drop_first() =~= x.drop_first() + y);
        lemma_masked_concat(x.drop_first(), y, blocks);
        assert(placeholder_len(s) is None);
        assert(placeholder_len(x) is None);
    } else {
        let n = placeholder_len(x)->0;
        lemma_placeholder_same_prefix(x, s, n);
        assert(s.skip(n as int) =~= x.skip(n as int) + y);
        lemma_masked_concat(x.skip(n as int), y, blocks);
    }
}

/// A placeholder followed by a well-masked text is well masked, and adds
/// nothing to the characters outside placeholders.
proof fn lemma_placeholder_masked(k: nat, r: Seq<char>)
    requires
        well_masked(r),
    ensures
        well_masked(placeholder(k) + r),
        plain_count(placeholder(k) + r) == plain_count(r),
{
    lemma_placeholder_parse(k, r);
}

/// The number of characters of a well-masked text outside its placeholders.
pub open spec fn plain_count(s: Seq<char>) -> nat
    decreases s.len(),
{
    if s.len() == 0 {
        0
    } else if s[0] != '\0' {
        1 + plain_count(s.drop_first())
    } else {
        match placeholder_len(s) {
            Some(n) => if 0 < n <= s.len() {
                plain_count(s.skip(n as int))
            } else {
                0
            },
            None => 0,
        }
    }
}

/// Every character of a text without NUL lies outside placeholders.
proof fn lemma_plain_count_plain(g: Seq<char>)
    requires
        no_nul(g),
    ensures
        plain_count(g) == g.len(),
    decreases g.len(),
{
    if g.len() > 0 {
        lemma_plain_count_plain(g.drop_first());
    }
}

/// The characters outside placeholders add up over a concatenation.
proof fn lemma_plain_count_concat(x: Seq<char>, y: Seq<char>)
    requires
        well_masked(x),
    ensures
        plain_count(x + y) == plain_count(x) + plain_count(y),
    decreases x.len(),
{
    let s = x + y;
    if x.len() == 0 {
        assert(s =~= y);
    } else if x[0] != '\0' {
        assert(s[0] == x[0]);
        assert(s.drop_first() =~= x.drop_first() + y);
        lemma_plain_count_concat(x.drop_first(), y);
    } else {
        let n = placeholder_len(x)->0;
        lemma_placeholder_same_prefix(x, s, n);
        assert(s.skip(n as int) =~= x.skip(n as int) + y);
        lemma_plain_count_concat(x.skip(n as int), y);
    }
}

/// A well-masked text splits into two well-masked texts before a character
/// that cannot stand inside a placeholder, and at its end.
proof fn lemma_masked_split(s: Seq<char>, p: int)
    requires
        well_masked(s),
        0 <= p <= s.len(),
        p == s.len() || outside_placeholder(s[p]),
    ensures
        well_masked(s.take(p)),
        well_masked(s.skip(p)),
    decreases s.len(),
{
    if p == 0 {
        assert(s.take(0) =~= Seq::<char>::empty());
        assert(s.skip(0) =~= s);
    } else if s[0] != '\0' {
        let t = s.drop_first();
        lemma_masked_split(t, p - 1);
        assert(s.take(p)[0] == s[0]);
        assert(s.take(p).drop_first() =~= t.take(p - 1));
        assert(s.skip(p) =~= t.skip(p - 1));
    } else {
        let n = placeholder_len(s)->0;
        let d = digit_run(s, 2) as int;
        lemma_digit_run_facts(s, 2);
        assert(n == d + 3);
        if p < n {
            if p == 1 {
                assert(s[1] == 'B');
            } else if p < 2 + d {
                assert(index_digit(s[p]));
            } else {
                assert(s[p] == '\0');
            }
        }
        assert(p >= n);
        let r = s.skip(n as int);
        lemma_masked_split(r, p - n);
        let sp = s.take(p);
        lemma_placeholder_same_prefix(s, sp, n);
        assert(sp.skip(n as int) =~= r.take(p - n));
        assert(s.skip(p) =~= r.skip(p - n));
    }
}

/// Skipping a run without NUL at the start of a well-masked text leaves a
/// well-masked text.
proof fn lemma_masked_skip_plain(r: Seq<char>, len: int)
    requires
        well_masked(r),
        0 <= len <= r.len(),
        no_nul(r.take(len)),
    ensures
        well_masked(r.skip(len)),
    decreases len,
{
    if len == 0 {
        assert(r.skip(0) =~= r);
    } else {
        assert(r.take(len)[0] == r[0]);
        let t = r.drop_first();
        assert(t.take(len - 1) =~= r.take(len).drop_first());
        let tt = t.take(len - 1);
        assert forall|i: int| 0 <= i < len - 1 implies #[trigger] tt[i] != '\0' by {
            assert(tt[i] == r.take(len)[i + 1]);
        }
        lemma_masked_skip_plain(t, len - 1);
        assert(r.skip(len) =~= t.skip(len - 1));
    }
}

/// A pass over a well-masked text gives a well-masked text that unmasks to
/// the same characters, when each block it takes out is restorable; and
/// each block occurs in what the text unmasks to.
proof fn lemma_pass_keeps_unmasked(
    b: Seq<u8>,
    sp: Seq<(usize, usize)>,
    off: int,
    k: nat,
    blocks: Seq<Seq<char>>,
)
    requires
        valid_utf8(b),
        0 <= off <= b.len(),
        is_char_boundary(b, off),
        forall|i: int|
            0 <= i < sp.len() ==> {
                &&& off <= (#[trigger] sp[i]).0 <= sp[i].1 <= b.len()
                &&& is_char_boundary(b, sp[i].0 as int)
                &&& is_char_boundary(b, sp[i].1 as int)
            },
        forall|i: int, j: int| 0 <= i < j < sp.len() ==> sp[i].1 <= sp[j].0,
        well_masked(piece(b, off, b.len() as int)),
        forall|i: int|
            0 <= i < sp.len() ==> restorable(
                piece(b, (#[trigger] sp[i]).0 as int, sp[i].1 as int),
            ),
        forall|i: int|
            0 <= i < sp.len() ==> block_at(blocks, (k + i) as nat) == piece(
                b,
                (#[trigger] sp[i]).0 as int,
                sp[i].1 as int,
            ),
    ensures
        well_masked(mask_from(b, sp, off, k)),
        plain_count(mask_from(b, sp, off, k)) + sp.len() <= plain_count(
            piece(b, off, b.len() as int),
        ),
        k + sp.len() <= usize::MAX + 1 ==> unmask_spec(mask_from(b, sp, off, k), blocks)
            == unmask_spec(piece(b, off, b.len() as int), blocks),
        k + sp.len() <= usize::MAX + 1 ==> forall|i: int|
            0 <= i < sp.len() ==> contains_spec(
                unmask_spec(piece(b, off, b.len() as int), blocks),
                piece(b, (#[trigger] sp[i]).0 as int, sp[i].1 as int),
            ),
    decreases sp.len(),
{
    broadcast use is_char_boundary_start_end_of_seq;

    if sp.len() > 0 {
        let s0 = sp[0].0 as int;
        let e0 = sp[0].1 as int;
        let whole = piece(b, off, b.len() as int);
        let g = piece(b, off, s0);
        let m = piece(b, s0, e0);
        let tail = piece(b, e0, b.len() as int);
        lemma_piece_split(b, off, s0, b.len() as int);
        lemma_piece_split(b, s0, e0, b.len() as int);
        assert(whole == g + (m + tail));
        assert(restorable(m));
        assert(whole.take(g.len() as int) =~= g);
        assert(whole.skip(g.len() as int) =~= m + tail);
        assert(whole[g.len() as int] == m[0]);
        lemma_masked_split(whole, g.len() as int);
        assert((m + tail).take(m.len() as int) =~= m);
        assert((m + tail).skip(m.len() as int) =~= tail);
        lemma_masked_skip_plain(m + tail, m.len() as int);
        lemma_plain_masked(m, blocks);
        lemma_masked_concat(m, tail, blocks);
        let rest = sp.drop_first();
        assert forall|i: int| 0 <= i < rest.len() implies block_at(blocks, (k + 1 + i) as nat)
            == piece(b, (#[trigger] rest[i]).0 as int, rest[i].1 as int) by {
            assert(rest[i] == sp[i + 1]);
        }
        assert forall|i: int| 0 <= i < rest.len() implies e0 <= (#[trigger] rest[i]).0 by {
            assert(rest[i] == sp[i + 1]);
        }
        assert forall|i: int| 0 <= i < rest.len() implies restorable(
            piece(b, (#[trigger] rest[i]).0 as int, rest[i].1 as int),
        ) by {
            assert(rest[i] == sp[i + 1]);
        }
        lemma_pass_keeps_unmasked(b, rest, e0, k + 1, blocks);
        let after = mask_from(b, rest, e0, k + 1);
        lemma_placeholder_masked(k, after);
        lemma_masked_concat(g, placeholder(k) + after, blocks);
        lemma_masked_concat(g, m + tail, blocks);
        assert(mask_from(b, sp, off, k) =~= g + (placeholder(k) + after));
        lemma_plain_count_plain(m);
        lemma_plain_count_concat(m, tail);
        lemma_plain_count_concat(g, m + tail);
        lemma_plain_count_concat(g, placeholder(k) + after);
        if k + sp.len() <= usize::MAX + 1 {
            lemma_unmask_placeholder(k, after, blocks);
            assert(block_at(blocks, k) == m);
            lemma_pass_contains(b, sp, off, blocks, g, m, tail);
        }
    }
}

/// The contains half of `lemma_pass_keeps_unmasked`, once the text is split
/// around the first span.
proof fn lemma_pass_contains(
    b: Seq<u8>,
    sp: Seq<(usize, usize)>,
    off: int,
    blocks: Seq<Seq<char>>,
    g: Seq<char>,
    m: Seq<char>,
    tail: Seq<char>,
)
    requires
        sp.len() > 0,
        m == piece(b, sp[0].0 as int, sp[0].1 as int),
        tail == piece(b, sp[0].1 as int, b.len() as int),
        unmask_spec(piece(b, off, b.len() as int), blocks) == unmask_spec(g, blocks) + (m
            + unmask_spec(tail, blocks)),
        forall|i: int|
            0 <= i < sp.len() - 1 ==> contains_spec(
                unmask_spec(tail, blocks),
                piece(b, (#[trigger] sp.drop_first()[i]).0 as int, sp.drop_first()[i].1 as int),
            ),
    ensures
        forall|i: int|
            0 <= i < sp.len() ==> contains_spec(
                unmask_spec(piece(b, off, b.len() as int), blocks),
                piece(b, (#[trigger] sp[i]).0 as int, sp[i].1 as int),
            ),
{
    let rest = sp.drop_first();
    let whole = piece(b, off, b.len() as int);
    let ug = unmask_spec(g, blocks);
    let ut = unmask_spec(tail, blocks);
    assert(unmask_spec(whole, blocks) == ug + (m + ut));
    assert forall|i: int| 0 <= i < sp.len() implies contains_spec(
        unmask_spec(whole, blocks),
        piece(b, (#[trigger] sp[i]).0 as int, sp[i].1 as int),
    ) by {
        if i == 0 {
            lemma_contains_self(m);
            lemma_contains_within(ug, m, ut, m);
            assert(ug + m + ut =~= ug + (m + ut));
        } else {
            assert(sp[i] == rest[i - 1]);
            let p = piece(b, sp[i].0 as int, sp[i].1 as int);
            lemma_contains_within(ug + m, ut, Seq::<char>::empty(), p);
            assert(ug + m + ut + Seq::<char>::empty() =~= ug + (m + ut));
        }
    }
}

/// One masking pass over a well-masked text keeps it well masked, takes
/// out at most as many blocks as there are characters outside placeholders,
/// and, when the blocks can be numbered by `usize`, changes nothing that
/// unmasking gives; each block it takes out then occurs in what the text
/// unmasks to.
proof fn lemma_pass_spec_keeps_unmasked(
    t: Seq<char>,
    pattern: Seq<char>,
    start: nat,
    blocks: Seq<Seq<char>>,
)
    requires
        pass_ok(t, pattern),
        well_masked(t),
        forall|i: int|
            0 <= i < pass_spec(t, pattern, start).1.len() ==> block_at(blocks, (start + i) as nat)
                == #[trigger] pass_spec(t, pattern, start).1[i],
    ensures
        well_masked(pass_spec(t, pattern, start).0),
        plain_count(pass_spec(t, pattern, start).0) + pass_spec(t, pattern, start).1.len()
            <= plain_count(t),
        start + pass_spec(t, pattern, start).1.len() <= usize::MAX + 1 ==> unmask_spec(
            pass_spec(t, pattern, start).0,
            blocks,
        ) == unmask_spec(t, blocks),
        start + pass_spec(t, pattern, start).1.len() <= usize::MAX + 1 ==> forall|i: int|
            0 <= i < pass_spec(t, pattern, start).1.len() ==> contains_spec(
                unmask_spec(t, blocks),
                #[trigger] pass_spec(t, pattern, start).1[i],
            ),
{
    broadcast use is_char_boundary_start_end_of_seq;

    let b = encode_utf8(t);
    let found = match_spans(pattern, t);
    lemma_guarded_spans(t, found);
    let sp = guarded_spans(b, found);
    let pieces = span_pieces(b, sp);
    assert(pass_spec(t, pattern, start).1 == pieces);
    assert(b.subrange(0, b.len() as int) =~= b);
    assert(piece(b, 0, b.len() as int) == t);
    assert forall|i: int| 0 <= i < sp.len() implies block_at(blocks, (start + i) as nat) == piece(
        b,
        (#[trigger] sp[i]).0 as int,
        sp[i].1 as int,
    ) by {
        assert(pieces[i] == piece(b, sp[i].0 as int, sp[i].1 as int));
        assert(block_at(blocks, (start + i) as nat) == pass_spec(t, pattern, start).1[i]);
    }
    lemma_pass_keeps_unmasked(b, sp, 0, start, blocks);
    if start + sp.len() <= usize::MAX + 1 {
        assert forall|i: int| 0 <= i < pieces.len() implies contains_spec(
            unmask_spec(t, blocks),
            #[trigger] pieces[i],
        ) by {
            assert(pieces[i] == piece(b, sp[i].0 as int, sp[i].1 as int));
        }
    }
}

/// Masking a text without NUL and putting its blocks back gives the text
/// again, and every block masking takes out occurs in the text. There are
/// never more blocks than characters.
pub proof fn mask_unmask_roundtrip(text: Seq<char>)
    requires
        no_nul(text),
        text.len() <= usize::MAX,
        mask_spec(text) is Some,
    ensures
        mask_spec(text) matches Some((masked, blocks)) && {
            &&& unmask_spec(masked, blocks) == text
            &&& forall|i: int| 0 <= i < blocks.len() ==> contains_spec(text, #[trigger] blocks[i])
            &&& blocks.len() <= text.len()
        },
{
    let p1 = pass_spec(text, FENCED_CODE@, 0);
    let p2 = pass_spec(p1.0, INLINE_CODE@, p1.1.len());
    let p3 = pass_spec(p2.0, URL@, p1.1.len() + p2.1.len());
    let all = p1.1 + p2.1 + p3.1;
    assert(mask_spec(text) == Some((p3.0, all)));
    lemma_plain_masked(text, all);
    lemma_plain_count_plain(text);
    assert forall|i: int| 0 <= i < p1.1.len() implies block_at(all, (0 + i) as nat)
        == #[trigger] p1.1[i] by {
        assert(all[i] == p1.1[i]);
    }
    lemma_pass_spec_keeps_unmasked(text, FENCED_CODE@, 0, all);
    assert forall|i: int| 0 <= i < p2.1.len() implies block_at(all, (p1.1.len() + i) as nat)
        == #[trigger] p2.1[i] by {
        assert(all[p1.1.len() + i] == p2.1[i]);
    }
    lemma_pass_spec_keeps_unmasked(p1.0, INLINE_CODE@, p1.1.len(), all);
    assert forall|i: int| 0 <= i < p3.1.len() implies block_at(
        all,
        (p1.1.len() + p2.1.len() + i) as nat,
    ) == #[trigger] p3.1[i] by {
        assert(all[p1.1.len() + p2.1.len() + i] == p3.1[i]);
    }
    lemma_pass_spec_keeps_unmasked(p2.0, URL@, p1.1.len() + p2.1.len(), all);
    assert forall|i: int| 0 <= i < all.len() implies contains_spec(text, #[trigger] all[i]) by {
        if i < p1.1.len() {
            assert(all[i] == p1.1[i]);
        } else if i < p1.1.len() + p2.1.len() {
            assert(all[i] == p2.1[i - p1.1.len()]);
        } else {
            assert(all[i] == p3.1[i - p1.1.len() - p2.1.len()]);
        }
    }
}

/// Masks fenced code, then inline code, then URLs.
pub fn mask_protected(text: &str) -> (res: Result<MaskedText, String>)
    ensures
        res is Ok <==> mask_spec(text@) is Some,
        res matches Ok(m) ==> mask_spec(text@) == Some((m.masked@, string_views(m.blocks@))),
        res matches Err(e) ==> e@ == REGEX_ERROR@,
{
    let mut blocks: Vec<String> = Vec::new();
    assert(string_views(blocks@) =~= Seq::<Seq<char>>::empty());
    let m1 = mask_pass(FENCED_CODE, text, &mut blocks)?;
    let ghost b1 = string_views(blocks@);
    let m2 = mask_pass(INLINE_CODE, m1.as_str(), &mut blocks)?;
    let ghost b2 = string_views(blocks@);
    let m3 = mask_pass(URL, m2.as_str(), &mut blocks)?;
    proof {
        let p1 = pass_spec(text@, FENCED_CODE@, 0);
        let p2 = pass_spec(p1.0, INLINE_CODE@, p1.1.len());
        let p3 = pass_spec(p2.0, URL@, p1.1.len() + p2.1.len());
        assert(b1 =~= p1.1);
        assert(b2 =~= p1.1 + p2.1);
        assert(string_views(blocks@) =~= p1.1 + p2.1 + p3.1);
    }
    Ok(MaskedText { masked: m3, blocks })
}

// ---------------------------------------------------------------------------
// Unmasking
// ---------------------------------------------------------------------------

/// A digit of a placeholder index: an ASCII digit, or a non-ASCII Unicode
/// decimal digit as `\d` decides it.
pub open spec fn index_digit(c: char) -> bool {
    if is_ascii_char(c) {
        ascii_digit(c)
    } else {
        pattern_compiles(INDEX_DIGIT@) && is_match_result(INDEX_DIGIT@, seq![c])
    }
}

/// The number of index digits in `s` from position `i` on.
pub open spec fn digit_run(s: Seq<char>, i: int) -> nat
    decreases s.len() - i,
{
    if 0 <= i < s.len() && index_digit(s[i]) {
        1 + digit_run(s, i + 1)
    } else {
        0
    }
}

/// The length of the placeholder at the start of `s`, if one is there.
pub open spec fn placeholder_len(s: Seq<char>) -> Option<nat> {
    if s.len() >= 2 && s[0] == '\0' && s[1] == 'B' {
        let d = digit_run(s, 2);
        if d >= 1 && 2 + d < s.len() && s[2 + d as int] == '\0' {
            Some(d + 3)
        } else {
            None
        }
    } else {
        None
    }
}

/// The block index a placeholder's digits name: their value when they are
/// ASCII digits whose value fits in `usize`, otherwise 0.
pub open spec fn parse_index(ds: Seq<char>) -> nat {
    if all_ascii_digits(ds) && digits_value(ds) <= usize::MAX {
        digits_value(ds)
    } else {
        0
    }
}

/// Block `idx`, or nothing when there is no such block.
pub open spec fn block_at(blocks: Seq<Seq<char>>, idx: nat) -> Seq<char> {
    if idx < blocks.len() {
        blocks[idx as int]
    } else {
        Seq::empty()
    }
}

/// `s` with every placeholder, scanned from the left, replaced by its block.
pub open spec fn unmask_spec(s: Seq<char>, blocks: Seq<Seq<char>>) -> Seq<char>
    decreases s.len(),
{
    if s.len() == 0 {
        s
    } else {
        match placeholder_len(s) {
            Some(n) => block_at(blocks, parse_index(s.subrange(2, n - 1))) + unmask_spec(
                s.skip(n as int),
                blocks,
            ),
            None => seq![s[0]] + unmask_spec(s.drop_first(), blocks),
        }
    }
}

fn is_index_digit(c: char) -> (res: bool)
    ensures
        res == index_digit(c),
{
    if (c as u32) < 0x80 {
        '0' <= c && c <= '9'
    } else {
        let one = string_from_chars(&[c]);
        assert(one@ =~= seq![c]);
        match regex_is_match(INDEX_DIGIT, one.as_str()) {
            Some(b) => b,
            None => false,
        }
    }
}

proof fn lemma_digit_run_exact(s: Seq<char>, p: int, q: int)
    requires
        0 <= p <= q <= s.len(),
        forall|m: int| p <= m < q ==> index_digit(#[trigger] s[m]),
        q == s.len() || !index_digit(s[q]),
    ensures
        digit_run(s, p) == q - p,
    decreases q - p,
{
    if p < q {
        lemma_digit_run_exact(s, p + 1, q);
    }
}

/// Reads the block index from `cs[lo..hi]`.
fn parse_index_exec(cs: &Vec<char>, lo: usize, hi: usize) -> (res: usize)
    requires
        lo <= hi <= cs@.len(),
    ensures
        res as nat == parse_index(cs@.subrange(lo as int, hi as int)),
{
    let ghost ds = cs@.subrange(lo as int, hi as int);
    let mut v: usize = 0;
    let mut m: usize = lo;
    while m < hi
        invariant
            lo <= m <= hi <= cs@.len(),
            ds == cs@.subrange(lo as int, hi as int),
            all_ascii_digits(ds.take(m - lo)),
            v as nat == digits_value(ds.take(m - lo)),
        decreases hi - m,
    {
        let c = cs[m];
        assert(ds[m - lo] == c);
        if !('0' <= c && c <= '9') {
            assert(!all_ascii_digits(ds));
            return 0;
        }
        let d: usize = ((c as u32) - ('0' as u32)) as usize;
        assert(ds.take(m - lo + 1).drop_last() =~= ds.take(m - lo));
        if v > (usize::MAX - d) / 10 {
            proof {
                assert(digits_value(ds.take(m - lo + 1)) == v * 10 + d);
                assert(v * 10 + d > usize::MAX) by (nonlinear_arith)
                    requires
                        v > (usize::MAX - d) / 10,
                        d <= 9,
                ;
                if all_ascii_digits(ds) {
                    lemma_digits_value_prefix(ds, m - lo + 1);
                }
            }
            return 0;
        }
        assert(v * 10 + d <= usize::MAX) by (nonlinear_arith)
            requires
                v <= (usize::MAX - d) / 10,
                d <= 9,
        ;
        v = v * 10 + d;
        assert(all_ascii_digits(ds.take(m - lo + 1)));
        m = m + 1;
    }
    assert(ds.take(hi - lo) =~= ds);
    v
}

/// Puts every block back in place of its placeholder.
pub fn unmask_protected(text: &str, blocks: &[String]) -> (res: String)
    ensures
        res@ == unmask_spec(text@, string_views(blocks@)),
{
    let ghost bv = string_views(blocks@);
    let cs = chars_of(text);
    let n = cs.len();
    let mut out: Vec<char> = Vec::new();
    let mut i: usize = 0;
    assert(cs@.skip(0) =~= cs@);
    while i < n
        invariant
            0 <= i <= n,
            n == cs@.len(),
            cs@ == text@,
            bv == string_views(blocks@),
            out@ + unmask_spec(cs@.skip(i as int), bv) == unmask_spec(cs@, bv),
        decreases n - i,
    {
        let ghost s = cs@.skip(i as int);
        let mut replaced = false;
        if cs[i] == '\0' && i + 1 < n && cs[i + 1] == 'B' {
            let mut j: usize = i + 2;
            while j < n && is_index_digit(cs[j])
                invariant
                    i + 2 <= j <= n,
                    n == cs@.len(),
                    forall|m: int| i + 2 <= m < j ==> index_digit(#[trigger] cs@[m]),
                decreases n - j,
            {
                j = j + 1;
            }
            proof {
                assert forall|m: int| 2 <= m < j - i implies index_digit(#[trigger] s[m]) by {
                    assert(s[m] == cs@[i + m]);
                }
                if j < n {
                    assert(s[j - i] == cs@[j as int]);
                }
                lemma_digit_run_exact(s, 2, (j - i) as int);
            }
            if j > i + 2 && j < n && cs[j] == '\0' {
                let idx = parse_index_exec(&cs, i + 2, j);
                proof {
                    assert(s[j - i] == cs@[j as int]);
                    assert(placeholder_len(s) == Some((j - i + 1) as nat));
                    assert(s.subrange(2, (j - i) as int) =~= cs@.subrange(i + 2, j as int));
                    assert(s.skip((j - i + 1) as int) =~= cs@.skip(j + 1));
                }
                let ghost before = out@;
                if idx < blocks.len() {
                    let mut bc = chars_of(blocks[idx].as_str());
                    out.append(&mut bc);
                }
                assert(out@ =~= before + block_at(bv, idx as nat));
                i = j + 1;
                replaced = true;
            } else {
                assert(placeholder_len(s) is None);
            }
        } else {
            assert(placeholder_len(s) is None);
        }
        if !replaced {
            let ghost before = out@;
            out.push(cs[i]);
            assert(s[0] == cs@[i as int]);
            assert(s.drop_first() =~= cs@.skip(i + 1));
            assert(out@ =~= before + seq![s[0]]);
            i = i + 1;
        }
    }
    assert(cs@.skip(n as int) =~= Seq::<char>::empty());
    string_from_chars(out.as_slice())
}

} // verus!
