//! The compressing proxy: a request's history is compressed with block
//! content flattened, the current prompt is sent as it came, each call is
//! reported, and a session file keeps the running totals.
use vstd::prelude::*;

use std::collections::HashMap;

use crate::pipeline::{
    chat_role, outcome_for, percent_spec, run_compress, saturating_sub_spec, saved_percent,
    TOKEN_OVERFLOW,
};
use crate::text::{join_spec, str_equal, string_from_chars, to_owned_string};
use crate::types::CompressConfig;
use crate::tokens::estimate_tokens;

verus! {

/// A content block as the request gives it: its `type` and its `text`,
/// each when it is a string, and the block itself.
#[derive(Debug)]
pub struct ContentBlock {
    pub kind: Option<String>,
    pub text: Option<String>,
    pub raw: serde_json::Value,
}

/// The texts of the text blocks, in order.
pub open spec fn block_texts(blocks: Seq<ContentBlock>) -> Seq<Seq<char>>
    decreases blocks.len(),
{
    if blocks.len() == 0 {
        Seq::empty()
    } else {
        let rest = block_texts(blocks.drop_last());
        let b = blocks.last();
        match (b.kind, b.text) {
            (Some(k), Some(t)) if k@ == "text"@ => rest.push(t@),
            _ => rest,
        }
    }
}

/// The text blocks joined by line breaks, or `None` when that is empty.
pub open spec fn flatten_spec(blocks: Seq<ContentBlock>) -> Option<Seq<char>> {
    let joined = join_spec(block_texts(blocks), "\n"@);
    if joined.len() == 0 {
        None
    } else {
        Some(joined)
    }
}

/// Joins the texts of the text blocks with line breaks; `None` when that
/// gives nothing.
pub fn flatten_content_blocks(blocks: &[ContentBlock]) -> (res: Option<String>)
    ensures
        match flatten_spec(blocks@) {
            Some(t) => res matches Some(r) && r@ == t,
            None => res is None,
        },
{
    let mut out: Vec<char> = Vec::new();
    let mut count: usize = 0;
    let mut i: usize = 0;
    while i < blocks.len()
        invariant
            0 <= i <= blocks@.len(),
            count <= i,
            count == block_texts(blocks@.take(i as int)).len(),
            out@ == join_spec(block_texts(blocks@.take(i as int)), "\n"@),
        decreases blocks@.len() - i,
    {
        let ghost before = block_texts(blocks@.take(i as int));
        assert(blocks@.take(i + 1).drop_last() =~= blocks@.take(i as int));
        assert(blocks@.take(i + 1).last() == blocks@[i as int]);
        let b = &blocks[i];
        match (&b.kind, &b.text) {
            (Some(k), Some(t)) => {
                if str_equal(k.as_str(), "text") {
                    if count > 0 {
                        out.push('\n');
                    }
                    let mut tc = crate::text::chars_of(t.as_str());
                    out.append(&mut tc);
                    proof {
                        reveal_strlit("\n");
                        let after = before.push(t@);
                        assert(after.drop_last() =~= before);
                        if before.len() == 0 {
                            assert(out@ =~= join_spec(after, "\n"@));
                        } else {
                            assert(out@ =~= join_spec(after, "\n"@));
                        }
                    }
                    count = count + 1;
                }
            },
            _ => {},
        }
        i = i + 1;
    }
    assert(blocks@.take(blocks@.len() as int) =~= blocks@);
    if out.len() == 0 {
        None
    } else {
        Some(string_from_chars(out.as_slice()))
    }
}

/// The content of a request message. `Other` is content that is neither a
/// string, an array nor `null`: its JSON text, which a history message is
/// compressed as, and the value itself.
#[derive(Debug)]
pub enum RequestContent {
    Text(String),
    Blocks(Vec<ContentBlock>),
    Null,
    Other { text: String, raw: serde_json::Value },
}

/// A message of a request: its role, its content (`None` when the field is
/// absent) and its other fields.
#[derive(Debug)]
pub struct RequestMessage {
    pub role: String,
    pub content: Option<RequestContent>,
    pub extra: HashMap<String, serde_json::Value>,
}

/// What one proxied call reports.
#[derive(Clone, Copy, Debug)]
pub struct ProxyCallStats {
    pub messages: usize,
    pub original_tokens: usize,
    pub compressed_tokens: usize,
    pub saved_tokens: usize,
    pub saved_percent: i64,
}

/// The plain text of a history message: its string, its text blocks
/// joined, or the JSON text of other content.
pub open spec fn request_text(m: RequestMessage) -> Option<Seq<char>> {
    match m.content {
        Some(RequestContent::Text(s)) => Some(s@),
        Some(RequestContent::Blocks(bs)) => flatten_spec(bs@),
        Some(RequestContent::Other { text, .. }) => Some(text@),
        _ => None,
    }
}

/// What compressing one history message gives: its new text and its token
/// counts, or the compression error.
pub open spec fn request_outcome(m: RequestMessage, config: CompressConfig) -> Result<
    (Seq<char>, nat, nat),
    Seq<char>,
> {
    outcome_for(m.role@, request_text(m), config)
}

/// The token totals of a history, or its first error: a compression error
/// or a total that does not fit in `usize`.
pub open spec fn request_totals(msgs: Seq<RequestMessage>, config: CompressConfig) -> Result<
    (nat, nat),
    Seq<char>,
>
    decreases msgs.len(),
{
    if msgs.len() == 0 {
        Ok((0, 0))
    } else {
        match request_totals(msgs.drop_last(), config) {
            Err(e) => Err(e),
            Ok((o, c)) => match request_outcome(msgs.last(), config) {
                Err(e) => Err(e),
                Ok((_, mo, mc)) => if o + mo > usize::MAX || c + mc > usize::MAX {
                    Err(TOKEN_OVERFLOW@)
                } else {
                    Ok((o + mo, c + mc))
                },
            },
        }
    }
}

/// `out` is history message `m` as it is forwarded: the same role and other
/// fields; its plain text (`request_text`) as a string, compressed when the
/// role is `user` or `assistant`, unchanged otherwise; content without plain
/// text as it was, an absent one as `null`.
pub open spec fn forwarded_for(out: RequestMessage, m: RequestMessage, config: CompressConfig) -> bool {
    match request_outcome(m, config) {
        Ok((text, _, _)) => {
            &&& out.role == m.role
            &&& out.extra == m.extra
            &&& if request_text(m) is Some {
                out.content matches Some(RequestContent::Text(s)) && s@ == text
            } else {
                out.content == match m.content {
                    None => Some(RequestContent::Null),
                    Some(c) => Some(c),
                }
            }
        },
        Err(_) => false,
    }
}

/// The last message is the current prompt when it is from the user.
pub open spec fn has_current(msgs: Seq<RequestMessage>) -> bool {
    msgs.len() > 0 && msgs.last().role@ == "user"@
}

/// The messages before the current prompt.
pub open spec fn history_of(msgs: Seq<RequestMessage>) -> Seq<RequestMessage> {
    if has_current(msgs) {
        msgs.drop_last()
    } else {
        msgs
    }
}

proof fn lemma_request_totals_error_persists(
    msgs: Seq<RequestMessage>,
    config: CompressConfig,
    k: int,
)
    requires
        0 <= k <= msgs.len(),
        request_totals(msgs.take(k), config) is Err,
    ensures
        request_totals(msgs, config) == request_totals(msgs.take(k), config),
    decreases msgs.len() - k,
{
    if k < msgs.len() {
        assert(msgs.take(k + 1).drop_last() =~= msgs.take(k));
        lemma_request_totals_error_persists(msgs, config, k + 1);
    } else {
        assert(msgs.take(k) =~= msgs);
    }
}

/// Compresses one history message as it is forwarded.
fn forward_message(m: RequestMessage, config: &CompressConfig) -> (res: Result<
    (RequestMessage, usize, usize),
    String,
>)
    ensures
        match request_outcome(m, *config) {
            Ok((_, o, c)) => res matches Ok((out, ro, rc)) && forwarded_for(out, m, *config)
                && ro == o && rc == c,
            Err(e) => res matches Err(err) && err@ == e,
        },
{
    let ghost m0 = m;
    let RequestMessage { role, content, extra } = m;
    let flat: Result<String, RequestContent> = match content {
        Some(RequestContent::Text(s)) => Ok(s),
        Some(RequestContent::Blocks(bs)) => match flatten_content_blocks(bs.as_slice()) {
            Some(t) => Ok(t),
            None => Err(RequestContent::Blocks(bs)),
        },
        Some(RequestContent::Null) => Err(RequestContent::Null),
        Some(RequestContent::Other { text, .. }) => Ok(text),
        None => Err(RequestContent::Null),
    };
    match flat {
        Ok(text) => {
            let chat = str_equal(role.as_str(), "user") || str_equal(role.as_str(), "assistant");
            if chat {
                let cr = run_compress(text.as_str(), role.as_str(), config)?;
                let o = cr.original_tokens;
                let c = cr.compressed_tokens;
                Ok((RequestMessage { role, content: Some(RequestContent::Text(cr.text)), extra }, o, c))
            } else {
                let tok = match estimate_tokens(text.as_str(), &config.token_method) {
                    Ok(n) => n,
                    Err(_) => 0,
                };
                Ok((RequestMessage { role, content: Some(RequestContent::Text(text)), extra }, tok, tok))
            }
        },
        Err(kept) => {
            let empty = String::new();
            let tok = match estimate_tokens(empty.as_str(), &config.token_method) {
                Ok(n) => n,
                Err(_) => 0,
            };
            Ok((RequestMessage { role, content: Some(kept), extra }, tok, tok))
        },
    }
}

/// Compresses the history of a messages request. The last message, when it
/// is from the user, is the current prompt and is sent back as it came;
/// every earlier message is forwarded as `forwarded_for` states, and the
/// report counts all messages and the history's tokens.
pub fn compress_request(messages: Vec<RequestMessage>, config: &CompressConfig) -> (res: Result<
    (Vec<RequestMessage>, ProxyCallStats),
    String,
>)
    ensures
        match request_totals(history_of(messages@), *config) {
            Ok((o, c)) => res matches Ok((out, stats)) && {
                let hist = history_of(messages@);
                &&& out@.len() == messages@.len()
                &&& forall|i: int|
                    0 <= i < hist.len() ==> forwarded_for(#[trigger] out@[i], hist[i], *config)
                &&& has_current(messages@) ==> out@.last() == messages@.last()
                &&& stats.messages == messages@.len()
                &&& stats.original_tokens == o
                &&& stats.compressed_tokens == c
                &&& stats.saved_tokens == saturating_sub_spec(o, c)
                &&& stats.saved_percent == percent_spec(saturating_sub_spec(o, c), o)
            },
            Err(e) => res matches Err(err) && err@ == e,
        },
{
    let ghost all = messages@;
    let n = messages.len();
    let mut history = messages;
    let last_is_user = n > 0 && str_equal(history[n - 1].role.as_str(), "user");
    let current = if last_is_user {
        history.pop()
    } else {
        None
    };
    let ghost hist = history@;
    assert(hist == history_of(all));
    let mut out: Vec<RequestMessage> = Vec::new();
    let mut total_original: usize = 0;
    let mut total_compressed: usize = 0;
    let mut i: usize = 0;
    assert(hist.take(0) =~= Seq::<RequestMessage>::empty());
    for m in it: history.into_iter()
        invariant
            hist == it.seq(),
            hist == history_of(all),
            all == messages@,
            n == all.len(),
            i == it.index(),
            0 <= i <= hist.len(),
            request_totals(hist.take(i as int), *config) == Ok::<(nat, nat), Seq<char>>(
                (total_original as nat, total_compressed as nat),
            ),
            out@.len() == i,
            forall|j: int| 0 <= j < i ==> forwarded_for(#[trigger] out@[j], hist[j], *config),
    {
        assert(hist[i as int] == m);
        assert(hist.take(i + 1).drop_last() =~= hist.take(i as int));
        assert(hist.take(i + 1).last() == m);
        let (f, o, c) = match forward_message(m, config) {
            Ok(r) => r,
            Err(e) => {
                proof {
                    lemma_request_totals_error_persists(hist, *config, i + 1);
                }
                return Err(e);
            },
        };
        if total_original > usize::MAX - o || total_compressed > usize::MAX - c {
            proof {
                lemma_request_totals_error_persists(hist, *config, i + 1);
            }
            return Err(to_owned_string(TOKEN_OVERFLOW));
        }
        total_original = total_original + o;
        total_compressed = total_compressed + c;
        out.push(f);
        i = i + 1;
    }
    assert(hist.take(i as int) =~= hist);
    match current {
        Some(cur) => out.push(cur),
        None => {},
    }
    let saved = total_original.saturating_sub(total_compressed);
    let pct = saved_percent(saved, total_original);
    Ok((out, ProxyCallStats { messages: n, original_tokens: total_original, compressed_tokens: total_compressed, saved_tokens: saved, saved_percent: pct }))
}

// ---------------------------------------------------------------------------
// Forwarding
// ---------------------------------------------------------------------------

/// Where the proxy forwards requests.
pub const UPSTREAM: &'static str = "https://api.anthropic.com";

/// The largest request body the proxy reads, in bytes.
pub const MAX_BODY_BYTES: usize = 33554432;

/// Whether a request is a call to the messages endpoint, whose history is
/// compressed: a `POST` to `/v1/messages`.
pub fn is_messages_request(method: &str, path: &str) -> (res: bool)
    ensures
        res == (method@ == "POST"@ && path@ == "/v1/messages"@),
{
    str_equal(method, "POST") && str_equal(path, "/v1/messages")
}

/// Whether a request header is passed on upstream: all but `host`,
/// `content-length` and `transfer-encoding`, which the forwarded request
/// sets for itself.
pub fn forwards_request_header(name: &str) -> (res: bool)
    ensures
        res == !(name@ == "host"@ || name@ == "content-length"@ || name@ == "transfer-encoding"@),
{
    !(str_equal(name, "host") || str_equal(name, "content-length") || str_equal(
        name,
        "transfer-encoding",
    ))
}

/// Whether a response header is passed back: all but `transfer-encoding`.
pub fn forwards_response_header(name: &str) -> (res: bool)
    ensures
        res == (name@ != "transfer-encoding"@),
{
    !str_equal(name, "transfer-encoding")
}

/// The upstream address for a request's path and query.
pub fn upstream_url(path_and_query: Option<&str>) -> (res: String)
    ensures
        res@ == UPSTREAM@ + match path_and_query {
            Some(p) => p@,
            None => Seq::empty(),
        },
{
    let mut out = crate::text::to_owned_string(UPSTREAM);
    match path_and_query {
        Some(p) => out.append(p),
        None => {},
    }
    assert(out@ =~= UPSTREAM@ + match path_and_query {
        Some(p) => p@,
        None => Seq::<char>::empty(),
    });
    out
}

// ---------------------------------------------------------------------------
// Session totals
// ---------------------------------------------------------------------------

/// The token counts a recorded call holds, each when it is a number.
#[derive(Clone, Copy, Debug)]
pub struct CallRecord {
    pub original_tokens: Option<u64>,
    pub compressed_tokens: Option<u64>,
}

/// The totals over a session's calls.
#[derive(Clone, Copy, Debug)]
pub struct SessionTotals {
    pub calls: usize,
    pub original_tokens: u64,
    pub compressed_tokens: u64,
    pub saved_tokens: u64,
    pub saved_percent: i64,
}

/// The sum of the values that are present.
pub open spec fn sum_present(vals: Seq<Option<u64>>) -> nat
    decreases vals.len(),
{
    if vals.len() == 0 {
        0
    } else {
        sum_present(vals.drop_last()) + match vals.last() {
            Some(v) => v as nat,
            None => 0nat,
        }
    }
}

/// The original counts of the calls.
pub open spec fn originals(calls: Seq<CallRecord>) -> Seq<Option<u64>> {
    calls.map_values(|c: CallRecord| c.original_tokens)
}

/// The compressed counts of the calls.
pub open spec fn compresseds(calls: Seq<CallRecord>) -> Seq<Option<u64>> {
    calls.map_values(|c: CallRecord| c.compressed_tokens)
}

/// The saved share in whole percent, rounded down; 0 when nothing was
/// counted.
pub open spec fn floor_percent(saved: nat, original: nat) -> int {
    if original > 0 {
        (saved * 100 / original) as int
    } else {
        0
    }
}

proof fn lemma_sum_present_step(vals: Seq<Option<u64>>, i: int)
    requires
        0 <= i < vals.len(),
    ensures
        sum_present(vals.take(i + 1)) == sum_present(vals.take(i)) + match vals[i] {
            Some(v) => v as nat,
            None => 0nat,
        },
{
    assert(vals.take(i + 1).drop_last() =~= vals.take(i));
}

/// `t` holds the totals of `calls`.
pub open spec fn totals_of(t: SessionTotals, calls: Seq<CallRecord>) -> bool {
    let o = sum_present(originals(calls));
    let c = sum_present(compresseds(calls));
    &&& t.calls == calls.len()
    &&& t.original_tokens == o
    &&& t.compressed_tokens == c
    &&& t.saved_tokens == saturating_sub_spec(o, c)
    &&& t.saved_percent == floor_percent(saturating_sub_spec(o, c), o)
}

/// Both sums over `calls` fit in `u64`.
pub open spec fn totals_fit(calls: Seq<CallRecord>) -> bool {
    sum_present(originals(calls)) <= u64::MAX && sum_present(compresseds(calls)) <= u64::MAX
}

/// Adds up the counts of a session's calls; `None` when a sum does not fit
/// in `u64`.
pub fn session_totals(calls: &[CallRecord]) -> (res: Option<SessionTotals>)
    ensures
        match res {
            Some(t) => totals_of(t, calls@),
            None => !totals_fit(calls@),
        },
{
    let ghost os = originals(calls@);
    let ghost cs = compresseds(calls@);
    let mut orig: u64 = 0;
    let mut comp: u64 = 0;
    let mut i: usize = 0;
    while i < calls.len()
        invariant
            0 <= i <= calls@.len(),
            os == originals(calls@),
            cs == compresseds(calls@),
            orig == sum_present(os.take(i as int)),
            comp == sum_present(cs.take(i as int)),
        decreases calls@.len() - i,
    {
        proof {
            lemma_sum_present_step(os, i as int);
            lemma_sum_present_step(cs, i as int);
        }
        let o = match calls[i].original_tokens {
            Some(v) => v,
            None => 0,
        };
        let c = match calls[i].compressed_tokens {
            Some(v) => v,
            None => 0,
        };
        if orig > u64::MAX - o || comp > u64::MAX - c {
            proof {
                lemma_sum_present_monotone(os, i + 1);
                lemma_sum_present_monotone(cs, i + 1);
            }
            return None;
        }
        orig = orig + o;
        comp = comp + c;
        i = i + 1;
    }
    assert(os.take(i as int) =~= os);
    assert(cs.take(i as int) =~= cs);
    let saved = orig.saturating_sub(comp);
    let pct: i64 = if orig > 0 {
        let s128 = saved as u128;
        let o128 = orig as u128;
        let p = s128 * 100 / o128;
        assert(p <= 100) by (nonlinear_arith)
            requires
                s128 <= o128,
                o128 > 0,
                p == (s128 * 100) / (o128 as int),
        ;
        p as i64
    } else {
        0
    };
    Some(
        SessionTotals {
            calls: calls.len(),
            original_tokens: orig,
            compressed_tokens: comp,
            saved_tokens: saved,
            saved_percent: pct,
        },
    )
}

/// A sum over a prefix is at most the sum over the whole.
proof fn lemma_sum_present_monotone(vals: Seq<Option<u64>>, k: int)
    requires
        0 <= k <= vals.len(),
    ensures
        sum_present(vals.take(k)) <= sum_present(vals),
    decreases vals.len() - k,
{
    if k < vals.len() {
        lemma_sum_present_step(vals, k);
        lemma_sum_present_monotone(vals, k + 1);
    } else {
        assert(vals.take(k) =~= vals);
    }
}


// ---------------------------------------------------------------------------
// Session file
// ---------------------------------------------------------------------------

/// A call in a session file.
#[derive(Debug)]
pub enum CallEntry {
    /// A call already in the file: its token counts, each when it is a
    /// number, and the entry as stored.
    Stored { original_tokens: Option<u64>, compressed_tokens: Option<u64>, raw: serde_json::Value },
    /// The call being recorded: when it happened and what it reported.
    New { timestamp: u64, stats: ProxyCallStats },
}

/// The metadata of a session file.
#[derive(Debug)]
pub enum SessionMeta {
    /// The fields of an existing file other than its calls and total, kept
    /// as they are.
    Kept(HashMap<String, serde_json::Value>),
    /// The metadata of a new file.
    New { session_id: String, terse_version: String, client_session_id: Option<String> },
}

/// A session file: metadata, calls (`None` when the file's calls are not a
/// list) and totals.
#[derive(Debug)]
pub struct SessionDoc {
    pub meta: SessionMeta,
    pub calls: Option<Vec<CallEntry>>,
    pub total: Option<SessionTotals>,
}

/// The token counts of a call.
pub open spec fn entry_record(e: CallEntry) -> CallRecord {
    match e {
        CallEntry::Stored { original_tokens, compressed_tokens, .. } => CallRecord {
            original_tokens,
            compressed_tokens,
        },
        CallEntry::New { stats, .. } => CallRecord {
            original_tokens: Some(stats.original_tokens as u64),
            compressed_tokens: Some(stats.compressed_tokens as u64),
        },
    }
}

/// The token counts of the calls.
pub open spec fn entry_records(calls: Seq<CallEntry>) -> Seq<CallRecord> {
    calls.map_values(|e: CallEntry| entry_record(e))
}

/// The calls of a session file after recording a call made at `now` with
/// `stats`: the file's calls (none for a new file) followed by it; `None`
/// when the file's calls are not a list.
pub open spec fn calls_after(doc: Option<SessionDoc>, now: u64, stats: ProxyCallStats) -> Option<
    Seq<CallEntry>,
> {
    let entry = CallEntry::New { timestamp: now, stats };
    match doc {
        Some(d) => match d.calls {
            Some(v) => Some(v@.push(entry)),
            None => None,
        },
        None => Some(seq![entry]),
    }
}

/// The counts that the totals are taken over.
pub open spec fn counted_calls(calls: Option<Seq<CallEntry>>) -> Seq<CallRecord> {
    match calls {
        Some(cs) => entry_records(cs),
        None => Seq::empty(),
    }
}

/// The token counts of the calls, as a list.
fn records_of(calls: &Vec<CallEntry>) -> (res: Vec<CallRecord>)
    ensures
        res@ == entry_records(calls@),
{
    let mut out: Vec<CallRecord> = Vec::new();
    let mut i: usize = 0;
    while i < calls.len()
        invariant
            0 <= i <= calls@.len(),
            out@ == entry_records(calls@.take(i as int)),
        decreases calls@.len() - i,
    {
        let r = match &calls[i] {
            CallEntry::Stored { original_tokens, compressed_tokens, .. } => CallRecord {
                original_tokens: *original_tokens,
                compressed_tokens: *compressed_tokens,
            },
            CallEntry::New { stats, .. } => CallRecord {
                original_tokens: Some(stats.original_tokens as u64),
                compressed_tokens: Some(stats.compressed_tokens as u64),
            },
        };
        out.push(r);
        assert(calls@.take(i + 1) =~= calls@.take(i as int).push(calls@[i as int]));
        assert(out@ =~= entry_records(calls@.take(i + 1)));
        i = i + 1;
    }
    assert(calls@.take(calls@.len() as int) =~= calls@);
    out
}

/// Records a call in a session file (`None` for a file that does not exist
/// yet): an existing file keeps its metadata, a new one gets this session's;
/// the call is appended to the calls and the totals are taken again over
/// all of them. `None` when a total does not fit in `u64`.
pub fn record_call(
    doc: Option<SessionDoc>,
    session_id: &str,
    client_session_id: Option<&str>,
    version: &str,
    stats: &ProxyCallStats,
    now_secs: u64,
) -> (res: Option<SessionDoc>)
    ensures
        match res {
            Some(d) => {
                &&& match doc {
                    Some(old) => d.meta == old.meta,
                    None => d.meta matches SessionMeta::New {
                        session_id: s,
                        terse_version: v,
                        client_session_id: c,
                    } && s@ == session_id@ && v@ == version@ && crate::settings::opt_view(c)
                        == crate::utils::opt_str_view(client_session_id),
                }
                &&& match calls_after(doc, now_secs, *stats) {
                    Some(cs) => d.calls matches Some(v) && v@ == cs,
                    None => d.calls is None,
                }
                &&& d.total matches Some(t) && totals_of(
                    t,
                    counted_calls(calls_after(doc, now_secs, *stats)),
                )
            },
            None => !totals_fit(counted_calls(calls_after(doc, now_secs, *stats))),
        },
{
    let ghost after = calls_after(doc, now_secs, *stats);
    let (meta, calls) = match doc {
        Some(d) => (d.meta, d.calls),
        None => {
            let client = match client_session_id {
                Some(c) => Some(to_owned_string(c)),
                None => None,
            };
            (
                SessionMeta::New {
                    session_id: to_owned_string(session_id),
                    terse_version: to_owned_string(version),
                    client_session_id: client,
                },
                Some(Vec::new()),
            )
        },
    };
    let calls = match calls {
        Some(mut v) => {
            v.push(CallEntry::New { timestamp: now_secs, stats: *stats });
            Some(v)
        },
        None => None,
    };
    let records = match &calls {
        Some(v) => records_of(v),
        None => Vec::new(),
    };
    assert(records@ == counted_calls(after));
    let total = session_totals(records.as_slice())?;
    Some(SessionDoc { meta, calls, total: Some(total) })
}

} // verus!
