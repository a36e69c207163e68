//! What the `compress`, `stats`, `diff` and `config` commands print, from
//! the results of the library.
use vstd::prelude::*;

use crate::pipeline::{
    compress_text_spec, content_text, eligible, history_totals, message_outcome,
    message_result_for, percent_spec, result_for, run_compress, run_compress_history,
    saturating_sub_spec,
};
use crate::tokens::token_count;
use crate::settings::{opt_view, TerseConfig, DEFAULT_PORT};
use crate::text::{chars_of, decimal, i64_decimal, signed_decimal, string_from_chars, u64_decimal};
use crate::types::{
    CompressConfig, CompressResult, HistoryResult, Message, MessageContent, MessageWithStats,
};
use crate::utils::{fmt_stats, fmt_stats_spec};

verus! {

/// `s` without the line breaks at its end.
pub open spec fn trim_newlines_spec(s: Seq<char>) -> Seq<char>
    decreases s.len(),
{
    if s.len() > 0 && s.last() == '\n' {
        trim_newlines_spec(s.drop_last())
    } else {
        s
    }
}

/// Strips the line breaks at the end of `s`.
pub fn trim_trailing_newlines(s: &str) -> (res: String)
    ensures
        res@ == trim_newlines_spec(s@),
{
    let cs = chars_of(s);
    let mut end: usize = cs.len();
    assert(cs@.take(end as int) =~= cs@);
    while end > 0 && cs[end - 1] == '\n'
        invariant
            end <= cs@.len(),
            trim_newlines_spec(cs@.take(end as int)) == trim_newlines_spec(cs@),
        decreases end,
    {
        assert(cs@.take(end as int).drop_last() =~= cs@.take(end - 1));
        end = end - 1;
    }
    let mut out: Vec<char> = Vec::new();
    let mut i: usize = 0;
    while i < end
        invariant
            0 <= i <= end <= cs@.len(),
            out@ == cs@.take(i as int),
        decreases end - i,
    {
        out.push(cs[i]);
        assert(out@ =~= cs@.take(i + 1));
        i = i + 1;
    }
    proof {
        assert(cs@.take(cs@.len() as int) =~= cs@);
        let t = cs@.take(end as int);
        assert(trim_newlines_spec(t) == t);
    }
    string_from_chars(out.as_slice())
}

/// `s` ends with a line break.
pub open spec fn ends_with_newline(s: Seq<char>) -> bool {
    s.len() > 0 && s.last() == '\n'
}

/// Compresses the text read by `compress`: its trailing line breaks are
/// stripped before compression, and the output ends with a line break when
/// the input did. Returns the output and the result.
pub fn compress_text_output(input: &str, role: &str, config: &CompressConfig) -> (res: Result<
    (String, CompressResult),
    String,
>)
    ensures
        match compress_text_spec(trim_newlines_spec(input@), role@, config.tiers@) {
            Ok(out) => res matches Ok((o, r)) && {
                &&& result_for(r, trim_newlines_spec(input@), out, config.token_method)
                &&& o@ == if ends_with_newline(input@) {
                    out + seq!['\n']
                } else {
                    out
                }
            },
            Err(e) => res matches Err(err) && err@ == e,
        },
{
    let text = trim_trailing_newlines(input);
    let result = run_compress(text.as_str(), role, config)?;
    let cs = chars_of(input);
    let mut out = crate::text::to_owned_string(result.text.as_str());
    if cs.len() > 0 && cs[cs.len() - 1] == '\n' {
        out.append("\n");
        proof {
            reveal_strlit("\n");
        }
    }
    Ok((out, result))
}

/// The text of a message as the text output shows it: its string content,
/// or nothing.
pub open spec fn shown_content(content: Option<MessageContent>) -> Seq<char> {
    match content_text(content) {
        Some(t) => t,
        None => Seq::empty(),
    }
}

/// `role: content` lines, one per message.
pub open spec fn history_text_spec(msgs: Seq<MessageWithStats>) -> Seq<char>
    decreases msgs.len(),
{
    if msgs.len() == 0 {
        Seq::empty()
    } else {
        let m = msgs.last();
        history_text_spec(msgs.drop_last()) + m.role@ + ": "@ + shown_content(m.content) + "\n"@
    }
}

/// The string content of a message, or the empty string.
fn content_str(content: &Option<MessageContent>) -> (res: &str)
    ensures
        res@ == shown_content(*content),
{
    proof {
        reveal_strlit("");
    }
    match content {
        Some(MessageContent::Text(s)) => s.as_str(),
        _ => "",
    }
}

/// The compressed history as text, one `role: content` line per message.
pub fn history_text(result: &HistoryResult) -> (res: String)
    ensures
        res@ == history_text_spec(result.messages@),
{
    let ghost ms = result.messages@;
    let mut out = String::new();
    let mut i: usize = 0;
    while i < result.messages.len()
        invariant
            0 <= i <= ms.len(),
            ms == result.messages@,
            out@ == history_text_spec(ms.take(i as int)),
        decreases ms.len() - i,
    {
        let m = &result.messages[i];
        out.append(m.role.as_str());
        out.append(": ");
        out.append(content_str(&m.content));
        out.append("\n");
        assert(ms.take(i + 1).drop_last() =~= ms.take(i as int));
        assert(ms.take(i + 1).last() == ms[i as int]);
        i = i + 1;
    }
    assert(ms.take(i as int) =~= ms);
    out
}

/// The summary line for one text.
pub fn text_stats_line(r: &CompressResult) -> (res: String)
    ensures
        res@ == fmt_stats_spec(
            r.original_tokens as nat,
            r.compressed_tokens as nat,
            r.saved_tokens as nat,
            r.saved_percent as int,
            None,
        ),
{
    fmt_stats(r.original_tokens, r.compressed_tokens, r.saved_tokens, r.saved_percent, None)
}

/// The summary line for a history.
pub fn history_stats_line(h: &HistoryResult) -> (res: String)
    ensures
        res@ == fmt_stats_spec(
            h.stats.total_original_tokens as nat,
            h.stats.total_compressed_tokens as nat,
            h.stats.total_saved_tokens as nat,
            h.stats.total_saved_percent as int,
            Some(h.messages@.len()),
        ),
{
    fmt_stats(
        h.stats.total_original_tokens,
        h.stats.total_compressed_tokens,
        h.stats.total_saved_tokens,
        h.stats.total_saved_percent,
        Some(h.messages.len()),
    )
}

/// The diff of one text: the original with its token count, then the
/// compressed text with its count and saved share.
pub open spec fn text_diff_spec(text: Seq<char>, r: CompressResult) -> Seq<char> {
    "--- original ("@ + decimal(r.original_tokens as nat) + " tokens)\n"@ + text + "\n"@
        + "+++ compressed ("@ + decimal(r.compressed_tokens as nat) + " tokens, -"@
        + signed_decimal(r.saved_percent as int) + "%)\n"@ + r.text@ + "\n"@
}

/// The diff that `diff` prints for one text.
pub fn text_diff(text: &str, r: &CompressResult) -> (res: String)
    ensures
        res@ == text_diff_spec(text@, *r),
{
    let mut out = crate::text::to_owned_string("--- original (");
    let o = u64_decimal(r.original_tokens as u64);
    out.append(o.as_str());
    out.append(" tokens)\n");
    out.append(text);
    out.append("\n");
    out.append("+++ compressed (");
    let c = u64_decimal(r.compressed_tokens as u64);
    out.append(c.as_str());
    out.append(" tokens, -");
    let p = i64_decimal(r.saved_percent);
    out.append(p.as_str());
    out.append("%)\n");
    out.append(r.text.as_str());
    out.append("\n");
    assert(out@ =~= text_diff_spec(text@, *r));
    out
}

/// The diff of message `i` of a history.
pub open spec fn message_diff_spec(i: nat, m: MessageWithStats) -> Seq<char> {
    "--- ["@ + decimal(i) + "] "@ + m.role@ + " ("@ + decimal(m.stats.original_tokens as nat)
        + " tokens)\n"@ + "+++ ["@ + decimal(i) + "] "@ + m.role@ + " ("@ + decimal(
        m.stats.compressed_tokens as nat,
    ) + " tokens, -"@ + signed_decimal(m.stats.saved_percent as int) + "%)\n"@ + shown_content(
        m.content,
    ) + "\n"@
}

/// The diffs of the messages, separated by blank lines.
pub open spec fn history_diff_spec(msgs: Seq<MessageWithStats>) -> Seq<char>
    decreases msgs.len(),
{
    if msgs.len() == 0 {
        Seq::empty()
    } else if msgs.len() == 1 {
        message_diff_spec(0, msgs[0])
    } else {
        history_diff_spec(msgs.drop_last()) + "\n"@ + message_diff_spec(
            (msgs.len() - 1) as nat,
            msgs.last(),
        )
    }
}

/// The diff of one message.
fn message_diff(i: usize, m: &MessageWithStats) -> (res: String)
    ensures
        res@ == message_diff_spec(i as nat, *m),
{
    let idx = u64_decimal(i as u64);
    let mut out = crate::text::to_owned_string("--- [");
    out.append(idx.as_str());
    out.append("] ");
    out.append(m.role.as_str());
    out.append(" (");
    let o = u64_decimal(m.stats.original_tokens as u64);
    out.append(o.as_str());
    out.append(" tokens)\n");
    out.append("+++ [");
    out.append(idx.as_str());
    out.append("] ");
    out.append(m.role.as_str());
    out.append(" (");
    let c = u64_decimal(m.stats.compressed_tokens as u64);
    out.append(c.as_str());
    out.append(" tokens, -");
    let p = i64_decimal(m.stats.saved_percent);
    out.append(p.as_str());
    out.append("%)\n");
    out.append(content_str(&m.content));
    out.append("\n");
    assert(out@ =~= message_diff_spec(i as nat, *m));
    out
}

/// The diff that `diff` prints for a history.
pub fn history_diff(h: &HistoryResult) -> (res: String)
    ensures
        res@ == history_diff_spec(h.messages@),
{
    let ghost ms = h.messages@;
    let mut out = String::new();
    let mut i: usize = 0;
    while i < h.messages.len()
        invariant
            0 <= i <= ms.len(),
            ms == h.messages@,
            out@ == history_diff_spec(ms.take(i as int)),
        decreases ms.len() - i,
    {
        if i > 0 {
            out.append("\n");
        }
        let d = message_diff(i, &h.messages[i]);
        out.append(d.as_str());
        assert(ms.take(i + 1).drop_last() =~= ms.take(i as int));
        assert(ms.take(i + 1).last() == ms[i as int]);
        if i == 0 {
            assert(ms.take(1)[0] == ms[0]);
            assert(out@ =~= history_diff_spec(ms.take(1)));
        } else {
            assert(out@ =~= history_diff_spec(ms.take(i + 1)));
        }
        i = i + 1;
    }
    assert(ms.take(i as int) =~= ms);
    out
}

/// What a command reads: a history of messages, or a text.
pub enum Input {
    Text(String),
    History(Vec<Message>),
}

/// The summary line of `stats` for a text: the text is compressed with its
/// trailing line breaks stripped.
pub open spec fn text_stats_spec(t: Seq<char>, role: Seq<char>, config: CompressConfig) -> Result<
    Seq<char>,
    Seq<char>,
> {
    let text = trim_newlines_spec(t);
    let o = token_count(text, config.token_method);
    match compress_text_spec(text, role, config.tiers@) {
        Ok(out) => {
            let c = token_count(out, config.token_method);
            let saved = saturating_sub_spec(o, c);
            Ok(fmt_stats_spec(o, c, saved, percent_spec(saved, o), None))
        },
        Err(e) => Err(e),
    }
}

/// The summary line of `stats` for a history.
pub open spec fn history_stats_spec(msgs: Seq<Message>, config: CompressConfig) -> Result<
    Seq<char>,
    Seq<char>,
> {
    match history_totals(msgs, config) {
        Ok((o, c)) => {
            let saved = saturating_sub_spec(o, c);
            Ok(fmt_stats_spec(o, c, saved, percent_spec(saved, o), Some(msgs.len())))
        },
        Err(e) => Err(e),
    }
}

/// What `stats` prints for its input.
pub fn run_stats(input: Input, role: &str, config: &CompressConfig) -> (res: Result<String, String>)
    ensures
        match input {
            Input::Text(t) => match text_stats_spec(t@, role@, *config) {
                Ok(line) => res matches Ok(r) && r@ == line,
                Err(e) => res matches Err(err) && err@ == e,
            },
            Input::History(msgs) => match history_stats_spec(msgs@, *config) {
                Ok(line) => res matches Ok(r) && r@ == line,
                Err(e) => res matches Err(err) && err@ == e,
            },
        },
{
    match input {
        Input::History(messages) => {
            let ghost n = messages@.len();
            let result = run_compress_history(messages, config)?;
            assert(result.messages@.len() == n);
            Ok(history_stats_line(&result))
        },
        Input::Text(t) => {
            let text = trim_trailing_newlines(t.as_str());
            let result = run_compress(text.as_str(), role, config)?;
            Ok(text_stats_line(&result))
        },
    }
}

/// What `diff` prints for a text: the diff on standard output and the
/// summary line on standard error.
pub open spec fn text_diff_output(t: Seq<char>, role: Seq<char>, config: CompressConfig) -> Result<
    (Seq<char>, Seq<char>),
    Seq<char>,
> {
    let text = trim_newlines_spec(t);
    let o = token_count(text, config.token_method);
    match compress_text_spec(text, role, config.tiers@) {
        Ok(out) => {
            let c = token_count(out, config.token_method);
            let saved = saturating_sub_spec(o, c);
            let pct = percent_spec(saved, o);
            let r = "--- original ("@ + decimal(o) + " tokens)\n"@ + text + "\n"@
                + "+++ compressed ("@ + decimal(c) + " tokens, -"@ + signed_decimal(pct)
                + "%)\n"@ + out + "\n"@;
            Ok((r, fmt_stats_spec(o, c, saved, pct, None)))
        },
        Err(e) => Err(e),
    }
}

/// The diff of message `i`, as compressing `m` gives it.
pub open spec fn expected_message_diff(i: nat, m: Message, config: CompressConfig) -> Seq<char> {
    match message_outcome(m, config) {
        Ok((text, o, c)) => {
            let shown = if eligible(m) {
                text
            } else {
                shown_content(m.content)
            };
            "--- ["@ + decimal(i) + "] "@ + m.role@ + " ("@ + decimal(o) + " tokens)\n"@ + "+++ ["@
                + decimal(i) + "] "@ + m.role@ + " ("@ + decimal(c) + " tokens, -"@
                + signed_decimal(percent_spec(saturating_sub_spec(o, c), o)) + "%)\n"@ + shown
                + "\n"@
        },
        Err(_) => Seq::empty(),
    }
}

/// The diff of a history, as compressing its messages gives it.
pub open spec fn expected_history_diff(msgs: Seq<Message>, config: CompressConfig) -> Seq<char>
    decreases msgs.len(),
{
    if msgs.len() == 0 {
        Seq::empty()
    } else if msgs.len() == 1 {
        expected_message_diff(0, msgs[0], config)
    } else {
        expected_history_diff(msgs.drop_last(), config) + "\n"@ + expected_message_diff(
            (msgs.len() - 1) as nat,
            msgs.last(),
            config,
        )
    }
}

proof fn lemma_history_diff_expected(
    outs: Seq<MessageWithStats>,
    msgs: Seq<Message>,
    config: CompressConfig,
)
    requires
        outs.len() == msgs.len(),
        forall|i: int|
            0 <= i < msgs.len() ==> message_result_for(#[trigger] outs[i], msgs[i], config),
    ensures
        history_diff_spec(outs) == expected_history_diff(msgs, config),
    decreases msgs.len(),
{
    if msgs.len() > 0 {
        let k = msgs.len() - 1;
        assert(message_result_for(outs[k], msgs[k], config));
        assert(message_diff_spec(k as nat, outs[k]) == expected_message_diff(
            k as nat,
            msgs[k],
            config,
        )) by {
            let m = msgs[k];
            let out = outs[k];
            if eligible(m) {
                assert(shown_content(out.content) == content_text(out.content)->0);
            }
        }
        if msgs.len() > 1 {
            lemma_history_diff_expected(outs.drop_last(), msgs.drop_last(), config);
        }
    }
}

/// What `diff` prints: for a history, the diff of each compressed message
/// and the summary line; for a text, the diff of the text and its summary
/// line.
pub fn run_diff(input: Input, role: &str, config: &CompressConfig) -> (res: Result<
    (String, String),
    String,
>)
    ensures
        match input {
            Input::Text(t) => match text_diff_output(t@, role@, *config) {
                Ok((out, line)) => res matches Ok((r, l)) && r@ == out && l@ == line,
                Err(e) => res matches Err(err) && err@ == e,
            },
            Input::History(msgs) => match history_totals(msgs@, *config) {
                Ok(_) => res matches Ok((r, l)) && r@ == expected_history_diff(msgs@, *config)
                    && history_stats_spec(msgs@, *config) == Ok::<Seq<char>, Seq<char>>(l@),
                Err(e) => res matches Err(err) && err@ == e,
            },
        },
{
    match input {
        Input::History(messages) => {
            let ghost msgs = messages@;
            let result = run_compress_history(messages, config)?;
            let out = history_diff(&result);
            let line = history_stats_line(&result);
            proof {
                lemma_history_diff_expected(result.messages@, msgs, *config);
            }
            Ok((out, line))
        },
        Input::Text(t) => {
            let text = trim_trailing_newlines(t.as_str());
            let result = run_compress(text.as_str(), role, config)?;
            let out = text_diff(text.as_str(), &result);
            let line = text_stats_line(&result);
            Ok((out, line))
        },
    }
}

/// What `config` prints: the effective mode, tokenizer and proxy port, and
/// the configuration file's path.
pub open spec fn config_report_spec(cfg: TerseConfig, path: Seq<char>) -> Seq<char> {
    let mode = match opt_view(cfg.mode) {
        Some(m) => m,
        None => "trim"@,
    };
    let tokenizer = match opt_view(cfg.tokenizer) {
        Some(t) => t,
        None => "tiktoken"@,
    };
    let port = match cfg.proxy.port {
        Some(p) => p,
        None => DEFAULT_PORT,
    };
    "mode:        "@ + mode + "\n"@ + "tokenizer:   "@ + tokenizer + "\n"@ + "proxy.port:  "@
        + decimal(port as nat) + "\n"@ + "\n"@ + "config file:  "@ + path + "\n"@
}

/// The effective configuration as `config` prints it.
pub fn config_report(cfg: &TerseConfig, path: &str) -> (res: String)
    ensures
        res@ == config_report_spec(*cfg, path@),
{
    let mode = match &cfg.mode {
        Some(m) => m.as_str(),
        None => "trim",
    };
    let tokenizer = match &cfg.tokenizer {
        Some(t) => t.as_str(),
        None => "tiktoken",
    };
    let port = match cfg.proxy.port {
        Some(p) => p,
        None => DEFAULT_PORT,
    };
    let mut out = crate::text::to_owned_string("mode:        ");
    out.append(mode);
    out.append("\n");
    out.append("tokenizer:   ");
    out.append(tokenizer);
    out.append("\n");
    out.append("proxy.port:  ");
    let p = u64_decimal(port as u64);
    out.append(p.as_str());
    out.append("\n");
    out.append("\n");
    out.append("config file:  ");
    out.append(path);
    out.append("\n");
    assert(out@ =~= config_report_spec(*cfg, path@));
    out
}

} // verus!
