//! Savings across sessions: the totals of the recorded sessions, the most
//! recent session, and the integer parts of the report.
use vstd::prelude::*;

use crate::text::{decimal, string_from_chars, to_owned_string, u64_decimal};

verus! {

/// The totals a session file records.
#[derive(Clone, Copy, Debug, Default)]
pub struct Totals {
    pub calls: u64,
    pub original_tokens: u64,
    pub compressed_tokens: u64,
    pub saved_tokens: u64,
}

/// A session file: its totals and its modification time in seconds.
#[derive(Clone, Copy, Debug)]
pub struct SessionFile {
    pub total: Totals,
    pub mtime: u64,
}

/// The sum of one field over the sessions.
pub open spec fn sum_field(sessions: Seq<SessionFile>, f: spec_fn(Totals) -> u64) -> nat
    decreases sessions.len(),
{
    if sessions.len() == 0 {
        0
    } else {
        sum_field(sessions.drop_last(), f) + f(sessions.last().total) as nat
    }
}

pub open spec fn calls_of(t: Totals) -> u64 {
    t.calls
}

pub open spec fn original_of(t: Totals) -> u64 {
    t.original_tokens
}

pub open spec fn compressed_of(t: Totals) -> u64 {
    t.compressed_tokens
}

pub open spec fn saved_of(t: Totals) -> u64 {
    t.saved_tokens
}

/// Every field sums within `u64`.
pub open spec fn sums_fit(sessions: Seq<SessionFile>) -> bool {
    &&& sum_field(sessions, |t: Totals| calls_of(t)) <= u64::MAX
    &&& sum_field(sessions, |t: Totals| original_of(t)) <= u64::MAX
    &&& sum_field(sessions, |t: Totals| compressed_of(t)) <= u64::MAX
    &&& sum_field(sessions, |t: Totals| saved_of(t)) <= u64::MAX
}

proof fn lemma_sum_step(sessions: Seq<SessionFile>, i: int, f: spec_fn(Totals) -> u64)
    requires
        0 <= i < sessions.len(),
    ensures
        sum_field(sessions.take(i + 1), f) == sum_field(sessions.take(i), f) + f(
            sessions[i].total,
        ) as nat,
{
    assert(sessions.take(i + 1).drop_last() =~= sessions.take(i));
}

proof fn lemma_sum_prefix(sessions: Seq<SessionFile>, k: int, f: spec_fn(Totals) -> u64)
    requires
        0 <= k <= sessions.len(),
    ensures
        sum_field(sessions.take(k), f) <= sum_field(sessions, f),
    decreases sessions.len() - k,
{
    if k < sessions.len() {
        lemma_sum_step(sessions, k, f);
        lemma_sum_prefix(sessions, k + 1, f);
    } else {
        assert(sessions.take(k) =~= sessions);
    }
}

/// Adds up the totals of all sessions; `None` when a sum does not fit in
/// `u64`.
pub fn aggregate(sessions: &[SessionFile]) -> (res: Option<Totals>)
    ensures
        match res {
            Some(t) => {
                &&& t.calls == sum_field(sessions@, |t: Totals| calls_of(t))
                &&& t.original_tokens == sum_field(sessions@, |t: Totals| original_of(t))
                &&& t.compressed_tokens == sum_field(sessions@, |t: Totals| compressed_of(t))
                &&& t.saved_tokens == sum_field(sessions@, |t: Totals| saved_of(t))
            },
            None => !sums_fit(sessions@),
        },
{
    let ghost ss = sessions@;
    let ghost fc = |t: Totals| calls_of(t);
    let ghost fo = |t: Totals| original_of(t);
    let ghost fm = |t: Totals| compressed_of(t);
    let ghost fs = |t: Totals| saved_of(t);
    let mut out = Totals { calls: 0, original_tokens: 0, compressed_tokens: 0, saved_tokens: 0 };
    let mut i: usize = 0;
    while i < sessions.len()
        invariant
            0 <= i <= ss.len(),
            ss == sessions@,
            fc == (|t: Totals| calls_of(t)),
            fo == (|t: Totals| original_of(t)),
            fm == (|t: Totals| compressed_of(t)),
            fs == (|t: Totals| saved_of(t)),
            out.calls == sum_field(ss.take(i as int), fc),
            out.original_tokens == sum_field(ss.take(i as int), fo),
            out.compressed_tokens == sum_field(ss.take(i as int), fm),
            out.saved_tokens == sum_field(ss.take(i as int), fs),
        decreases ss.len() - i,
    {
        let t = sessions[i].total;
        proof {
            lemma_sum_step(ss, i as int, fc);
            lemma_sum_step(ss, i as int, fo);
            lemma_sum_step(ss, i as int, fm);
            lemma_sum_step(ss, i as int, fs);
        }
        if out.calls > u64::MAX - t.calls || out.original_tokens > u64::MAX - t.original_tokens
            || out.compressed_tokens > u64::MAX - t.compressed_tokens || out.saved_tokens
            > u64::MAX - t.saved_tokens {
            proof {
                lemma_sum_prefix(ss, i + 1, fc);
                lemma_sum_prefix(ss, i + 1, fo);
                lemma_sum_prefix(ss, i + 1, fm);
                lemma_sum_prefix(ss, i + 1, fs);
            }
            return None;
        }
        out = Totals {
            calls: out.calls + t.calls,
            original_tokens: out.original_tokens + t.original_tokens,
            compressed_tokens: out.compressed_tokens + t.compressed_tokens,
            saved_tokens: out.saved_tokens + t.saved_tokens,
        };
        i = i + 1;
    }
    assert(ss.take(i as int) =~= ss);
    Some(out)
}

/// The index of the most recently modified session: the last of those with
/// the greatest modification time.
pub open spec fn latest_spec(sessions: Seq<SessionFile>) -> Option<nat>
    decreases sessions.len(),
{
    if sessions.len() == 0 {
        None
    } else {
        match latest_spec(sessions.drop_last()) {
            Some(j) if sessions[j as int].mtime > sessions.last().mtime => Some(j),
            _ => Some((sessions.len() - 1) as nat),
        }
    }
}

/// The most recently modified session, as `Iterator::max_by_key` picks it.
pub fn latest_session(sessions: &[SessionFile]) -> (res: Option<usize>)
    ensures
        match latest_spec(sessions@) {
            Some(j) => res == Some(j as usize),
            None => res is None,
        },
{
    let ghost ss = sessions@;
    let mut best: Option<usize> = None;
    let mut i: usize = 0;
    while i < sessions.len()
        invariant
            0 <= i <= ss.len(),
            ss == sessions@,
            match latest_spec(ss.take(i as int)) {
                Some(j) => best == Some(j as usize) && j < i,
                None => best is None && i == 0,
            },
        decreases ss.len() - i,
    {
        assert(ss.take(i + 1).drop_last() =~= ss.take(i as int));
        assert(ss.take(i + 1).last() == ss[i as int]);
        match best {
            Some(j) => {
                assert(ss.take(i + 1)[j as int] == ss[j as int]);
                if sessions[j].mtime <= sessions[i].mtime {
                    best = Some(i);
                }
            },
            None => {
                best = Some(i);
            },
        }
        i = i + 1;
    }
    assert(ss.take(i as int) =~= ss);
    best
}

/// `s` with a comma before every group of three characters counted from
/// the right, except at the start.
pub open spec fn group_thousands(s: Seq<char>) -> Seq<char>
    decreases s.len(),
{
    if s.len() <= 3 {
        s
    } else {
        group_thousands(s.take(s.len() - 3)) + seq![','] + s.skip(s.len() - 3)
    }
}

/// The decimal rendering of `n` with its digits grouped by thousands.
pub fn fmt_num(n: u64) -> (res: String)
    ensures
        res@ == group_thousands(decimal(n as nat)),
{
    let digits = crate::text::decimal_chars(n);
    let ghost d = digits@;
    let len = digits.len();
    let mut out: Vec<char> = Vec::new();
    let first = if len % 3 == 0 {
        3
    } else {
        len % 3
    };
    let first = if first > len {
        len
    } else {
        first
    };
    let mut i: usize = 0;
    while i < first
        invariant
            0 <= i <= first <= len,
            len == d.len(),
            d == digits@,
            out@ == d.take(i as int),
        decreases first - i,
    {
        out.push(digits[i]);
        assert(out@ =~= d.take(i + 1));
        i = i + 1;
    }
    proof {
        lemma_group_prefix(d, first as int);
    }
    let mut j: usize = first;
    while j < len
        invariant
            first <= j <= len,
            len == d.len(),
            d == digits@,
            (j - first) % 3 == 0,
            first >= 1 || len == 0,
            first <= 3,
            (len - first) % 3 == 0,
            out@ == group_thousands(d.take(j as int)),
        decreases len - j,
    {
        out.push(',');
        out.push(digits[j]);
        out.push(digits[j + 1]);
        out.push(digits[j + 2]);
        proof {
            let t = d.take(j + 3);
            assert(t.take(t.len() - 3) =~= d.take(j as int));
            assert(t.skip(t.len() - 3) =~= seq![d[j as int], d[j + 1], d[j + 2]]);
        }
        assert(out@ =~= group_thousands(d.take(j + 3)));
        j = j + 3;
    }
    assert(d.take(len as int) =~= d);
    string_from_chars(out.as_slice())
}

/// The first group of up to three characters is left as it is.
proof fn lemma_group_prefix(d: Seq<char>, first: int)
    requires
        0 <= first <= 3,
        first <= d.len(),
    ensures
        group_thousands(d.take(first)) == d.take(first),
{
}

/// The title of a report section: the label, with the number of sessions
/// when there is one.
pub open spec fn section_title_spec(label: Seq<char>, sessions: Option<nat>) -> Seq<char> {
    match sessions {
        Some(n) => label + " ("@ + decimal(n) + " "@ + if n == 1 {
            "session"@
        } else {
            "sessions"@
        } + ")"@,
        None => label,
    }
}

/// The title of a report section.
pub fn section_title(label: &str, sessions: Option<usize>) -> (res: String)
    ensures
        res@ == section_title_spec(
            label@,
            match sessions {
                Some(n) => Some(n as nat),
                None => None,
            },
        ),
{
    let mut out = to_owned_string(label);
    match sessions {
        Some(n) => {
            out.append(" (");
            let d = u64_decimal(n as u64);
            out.append(d.as_str());
            out.append(" ");
            if n == 1 {
                out.append("session");
            } else {
                out.append("sessions");
            }
            out.append(")");
        },
        None => {},
    }
    out
}

} // verus!
