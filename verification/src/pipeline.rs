//! The compression pipeline: protect code and URLs, run the configured
//! tiers, put the protected regions back and count tokens.
use vstd::prelude::*;

use crate::mask::{
    mask_protected, mask_spec, mask_unmask_roundtrip, no_nul, string_views, unmask_protected,
    unmask_spec,
};
use crate::pattern::REGEX_ERROR;
use crate::text::{ascii_letter, chars_of, contains_spec, find_chars, str_equal, to_owned_string};
use crate::tiers::llm::{apply_llm, LLM_UNAVAILABLE};
use crate::tiers::nlp::{apply_nlp, apply_nlp_spec};
use crate::tiers::rules::{apply_rules, apply_rules_spec};
use crate::tokens::{estimate_tokens, token_count};
use crate::types::{
    CompressConfig, CompressResult, HistoryResult, HistoryStats, Message, MessageContent,
    MessageStats, MessageWithStats, Tier, TokenMethod,
};

verus! {

/// The error reported when a token total does not fit in `usize`.
pub const TOKEN_OVERFLOW: &'static str = "token count overflow";

/// What one tier does to `t`: its text, or its error message.
pub open spec fn apply_tier_spec(t: Seq<char>, role: Seq<char>, tier: Tier) -> Result<
    Seq<char>,
    Seq<char>,
> {
    match tier {
        Tier::Rules => match apply_rules_spec(t, role) {
            Some(s) => Ok(s),
            None => Err(REGEX_ERROR@),
        },
        Tier::Nlp => match apply_nlp_spec(t) {
            Some(s) => Ok(s),
            None => Err(REGEX_ERROR@),
        },
        Tier::Llm => Err(LLM_UNAVAILABLE@),
    }
}

/// Every block occurs in `t`.
pub open spec fn keeps_blocks(t: Seq<char>, blocks: Seq<Seq<char>>) -> bool {
    forall|i: int| 0 <= i < blocks.len() ==> contains_spec(t, #[trigger] blocks[i])
}

/// The tiers applied in order to the masked text `t`. A tier whose text,
/// with the blocks put back, no longer holds every block is passed over, so
/// the run goes on from the text before it. The first error stops the run.
pub open spec fn guarded_tiers_spec(
    t: Seq<char>,
    role: Seq<char>,
    tiers: Seq<Tier>,
    blocks: Seq<Seq<char>>,
) -> Result<Seq<char>, Seq<char>>
    decreases tiers.len(),
{
    if tiers.len() == 0 {
        Ok(t)
    } else {
        match apply_tier_spec(t, role, tiers[0]) {
            Ok(s) => if keeps_blocks(unmask_spec(s, blocks), blocks) {
                guarded_tiers_spec(s, role, tiers.drop_first(), blocks)
            } else {
                guarded_tiers_spec(t, role, tiers.drop_first(), blocks)
            },
            Err(e) => Err(e),
        }
    }
}

/// Some character of `t` is an ASCII letter.
pub open spec fn has_ascii_letter(t: Seq<char>) -> bool {
    exists|i: int| 0 <= i < t.len() && ascii_letter(#[trigger] t[i])
}

/// The compressed text of `t`: unchanged when it has no ASCII letter;
/// otherwise masked, run through the tiers (passing over a tier that loses
/// a protected region) and unmasked.
pub open spec fn compress_text_spec(t: Seq<char>, role: Seq<char>, tiers: Seq<Tier>) -> Result<
    Seq<char>,
    Seq<char>,
> {
    if !has_ascii_letter(t) {
        Ok(t)
    } else {
        match mask_spec(t) {
            None => Err(REGEX_ERROR@),
            Some((masked, blocks)) => match guarded_tiers_spec(masked, role, tiers, blocks) {
                Ok(r) => Ok(unmask_spec(r, blocks)),
                Err(e) => Err(e),
            },
        }
    }
}

/// The saved share in whole percent, rounded half away from zero; 0 when
/// nothing was counted.
pub open spec fn percent_spec(saved: nat, original: nat) -> int {
    if original > 0 {
        ((200 * saved + original) / (2 * original)) as int
    } else {
        0
    }
}

/// `original` minus `compressed`, or 0 when that is negative.
pub open spec fn saturating_sub_spec(original: nat, compressed: nat) -> nat {
    if original >= compressed {
        (original - compressed) as nat
    } else {
        0
    }
}

/// `r` reports compressing `t` into `out` under token counting `method`.
pub open spec fn result_for(r: CompressResult, t: Seq<char>, out: Seq<char>, method: TokenMethod) -> bool {
    let o = token_count(t, method);
    let c = token_count(out, method);
    &&& r.text@ == out
    &&& r.original_tokens == o
    &&& r.compressed_tokens == c
    &&& r.saved_tokens == saturating_sub_spec(o, c)
    &&& r.saved_percent == percent_spec(saturating_sub_spec(o, c), o)
}

/// The saved share in whole percent, rounded half away from zero.
pub fn saved_percent(saved: usize, original: usize) -> (res: i64)
    requires
        saved <= original,
    ensures
        res == percent_spec(saved as nat, original as nat),
        0 <= res <= 100,
{
    if original == 0 {
        return 0;
    }
    let s = saved as u128;
    let o = original as u128;
    let p = (200 * s + o) / (2 * o);
    assert(p <= 100) by (nonlinear_arith)
        requires
            s <= o,
            o > 0,
            p == (200 * s + o) / (2 * o),
    ;
    p as i64
}

/// Runs one tier.
pub fn apply_tier(text: &str, role: &str, tier: &Tier) -> (res: Result<String, String>)
    ensures
        match res {
            Ok(s) => apply_tier_spec(text@, role@, *tier) == Ok::<Seq<char>, Seq<char>>(s@),
            Err(e) => apply_tier_spec(text@, role@, *tier) == Err::<Seq<char>, Seq<char>>(e@),
        },
{
    match tier {
        Tier::Rules => apply_rules(text, role),
        Tier::Nlp => apply_nlp(text, role),
        Tier::Llm => apply_llm(text, role),
    }
}

fn has_ascii_letter_exec(text: &str) -> (res: bool)
    ensures
        res == has_ascii_letter(text@),
        text@.len() <= usize::MAX,
{
    let cs = chars_of(text);
    assert(cs@.len() == cs.len());
    let mut i: usize = 0;
    while i < cs.len()
        invariant
            0 <= i <= cs@.len(),
            cs@ == text@,
            forall|j: int| 0 <= j < i ==> !ascii_letter(#[trigger] cs@[j]),
        decreases cs@.len() - i,
    {
        let c = cs[i];
        if ('a' <= c && c <= 'z') || ('A' <= c && c <= 'Z') {
            assert(ascii_letter(text@[i as int]));
            return true;
        }
        i = i + 1;
    }
    false
}

/// Whether every block occurs in `text`.
fn holds_blocks(text: &str, blocks: &[String]) -> (res: bool)
    ensures
        res == keeps_blocks(text@, string_views(blocks@)),
{
    let ghost bv = string_views(blocks@);
    let cs = chars_of(text);
    let mut i: usize = 0;
    while i < blocks.len()
        invariant
            0 <= i <= blocks@.len(),
            cs@ == text@,
            bv == string_views(blocks@),
            forall|j: int| 0 <= j < i ==> contains_spec(text@, #[trigger] bv[j]),
        decreases blocks@.len() - i,
    {
        let pat = chars_of(blocks[i].as_str());
        assert(bv[i as int] == pat@);
        if find_chars(&cs, &pat).is_none() {
            return false;
        }
        i = i + 1;
    }
    true
}

/// Runs the tiers of `tiers` in order on the masked text `text`, passing
/// over a tier whose text, with `blocks` put back, loses a block.
fn run_tiers(text: &str, role: &str, tiers: &Vec<Tier>, blocks: &[String]) -> (res: Result<
    String,
    String,
>)
    ensures
        match res {
            Ok(s) => guarded_tiers_spec(text@, role@, tiers@, string_views(blocks@)) == Ok::<
                Seq<char>,
                Seq<char>,
            >(s@),
            Err(e) => guarded_tiers_spec(text@, role@, tiers@, string_views(blocks@)) == Err::<
                Seq<char>,
                Seq<char>,
            >(e@),
        },
{
    let ghost bv = string_views(blocks@);
    let mut cur = to_owned_string(text);
    let mut i: usize = 0;
    assert(tiers@.skip(0) =~= tiers@);
    while i < tiers.len()
        invariant
            0 <= i <= tiers@.len(),
            bv == string_views(blocks@),
            guarded_tiers_spec(text@, role@, tiers@, bv) == guarded_tiers_spec(
                cur@,
                role@,
                tiers@.skip(i as int),
                bv,
            ),
        decreases tiers@.len() - i,
    {
        assert(tiers@.skip(i as int).drop_first() =~= tiers@.skip(i + 1));
        assert(tiers@.skip(i as int)[0] == tiers@[i as int]);
        let next = apply_tier(cur.as_str(), role, &tiers[i])?;
        let restored = unmask_protected(next.as_str(), blocks);
        if holds_blocks(restored.as_str(), blocks) {
            cur = next;
        }
        i = i + 1;
    }
    assert(tiers@.skip(i as int) =~= Seq::<Tier>::empty());
    Ok(cur)
}

/// Compresses `text` written by `role`: code blocks, inline code and URLs
/// are protected, the configured tiers run in order (a tier that would lose
/// a protected region is passed over), the protected regions are put back,
/// and the token counts before and after are reported. A text without any
/// ASCII letter is returned unchanged. Every protected region of a text
/// without NUL occurs in the result.
pub fn run_compress(text: &str, role: &str, config: &CompressConfig) -> (res: Result<
    CompressResult,
    String,
>)
    ensures
        match compress_text_spec(text@, role@, config.tiers@) {
            Ok(out) => res matches Ok(r) && result_for(r, text@, out, config.token_method),
            Err(e) => res matches Err(err) && err@ == e,
        },
        no_nul(text@) ==> (mask_spec(text@) matches Some((_, blocks)) ==> (res matches Ok(r)
            ==> keeps_blocks(r.text@, blocks))),
{
    let original_tokens = estimate_tokens(text, &config.token_method)?;
    let has_letter = has_ascii_letter_exec(text);
    proof {
        if no_nul(text@) {
            compression_keeps_protected(text@, role@, config.tiers@);
        }
    }
    if !has_letter {
        proof {
            let o = original_tokens as nat;
            if o > 0 {
                assert((200 * 0 + o) / (2 * o) == 0) by (nonlinear_arith)
                    requires
                        o > 0,
                ;
            }
        }
        return Ok(
            CompressResult {
                text: to_owned_string(text),
                original_tokens,
                compressed_tokens: original_tokens,
                saved_tokens: 0,
                saved_percent: 0,
            },
        );
    }
    let masked = match mask_protected(text) {
        Ok(m) => m,
        Err(e) => {
            return Err(e);
        },
    };
    let result = run_tiers(masked.masked.as_str(), role, &config.tiers, masked.blocks.as_slice())?;
    let unmasked = unmask_protected(result.as_str(), masked.blocks.as_slice());
    let compressed_tokens = estimate_tokens(unmasked.as_str(), &config.token_method)?;
    let saved_tokens = original_tokens.saturating_sub(compressed_tokens);
    let saved_percent = saved_percent(saved_tokens, original_tokens);
    Ok(
        CompressResult {
            text: unmasked,
            original_tokens,
            compressed_tokens,
            saved_tokens,
            saved_percent,
        },
    )
}

proof fn lemma_guarded_tiers_keep(
    t: Seq<char>,
    role: Seq<char>,
    tiers: Seq<Tier>,
    blocks: Seq<Seq<char>>,
)
    requires
        keeps_blocks(unmask_spec(t, blocks), blocks),
    ensures
        guarded_tiers_spec(t, role, tiers, blocks) matches Ok(r) ==> keeps_blocks(
            unmask_spec(r, blocks),
            blocks,
        ),
    decreases tiers.len(),
{
    if tiers.len() > 0 {
        if let Ok(s) = apply_tier_spec(t, role, tiers[0]) {
            if keeps_blocks(unmask_spec(s, blocks), blocks) {
                lemma_guarded_tiers_keep(s, role, tiers.drop_first(), blocks);
            } else {
                lemma_guarded_tiers_keep(t, role, tiers.drop_first(), blocks);
            }
        }
    }
}

/// The tiers run in order, each on what the ones before it gave: running
/// `first` and then `second` is running `first`, then `second` on its
/// result. The first error stops the run.
pub proof fn tiers_run_in_order(
    t: Seq<char>,
    role: Seq<char>,
    first: Seq<Tier>,
    second: Seq<Tier>,
    blocks: Seq<Seq<char>>,
)
    ensures
        guarded_tiers_spec(t, role, first + second, blocks) == match guarded_tiers_spec(
            t,
            role,
            first,
            blocks,
        ) {
            Ok(r) => guarded_tiers_spec(r, role, second, blocks),
            Err(e) => Err(e),
        },
    decreases first.len(),
{
    if first.len() == 0 {
        assert(first + second =~= second);
    } else {
        let all = first + second;
        assert(all[0] == first[0]);
        assert(all.drop_first() =~= first.drop_first() + second);
        if let Ok(s) = apply_tier_spec(t, role, first[0]) {
            if keeps_blocks(unmask_spec(s, blocks), blocks) {
                tiers_run_in_order(s, role, first.drop_first(), second, blocks);
            } else {
                tiers_run_in_order(t, role, first.drop_first(), second, blocks);
            }
        }
    }
}

/// Two tiers that each keep every protected region compose: the second
/// runs on the output of the first.
pub proof fn two_tiers_compose(
    t: Seq<char>,
    role: Seq<char>,
    a: Tier,
    b: Tier,
    blocks: Seq<Seq<char>>,
)
    requires
        apply_tier_spec(t, role, a) is Ok,
        keeps_blocks(unmask_spec(apply_tier_spec(t, role, a)->Ok_0, blocks), blocks),
        apply_tier_spec(apply_tier_spec(t, role, a)->Ok_0, role, b) is Ok,
        keeps_blocks(
            unmask_spec(apply_tier_spec(apply_tier_spec(t, role, a)->Ok_0, role, b)->Ok_0, blocks),
            blocks,
        ),
    ensures
        guarded_tiers_spec(t, role, seq![a, b], blocks) == apply_tier_spec(
            apply_tier_spec(t, role, a)->Ok_0,
            role,
            b,
        ),
{
    let s = apply_tier_spec(t, role, a)->Ok_0;
    assert(seq![a, b].drop_first() =~= seq![b]);
    assert(seq![b].drop_first() =~= Seq::<Tier>::empty());
    assert(seq![a, b][0] == a && seq![b][0] == b);
    assert(guarded_tiers_spec(t, role, seq![a, b], blocks) == guarded_tiers_spec(
        s,
        role,
        seq![b],
        blocks,
    ));
    let s2 = apply_tier_spec(s, role, b)->Ok_0;
    assert(guarded_tiers_spec(s2, role, Seq::<Tier>::empty(), blocks) == Ok::<
        Seq<char>,
        Seq<char>,
    >(s2));
    assert(guarded_tiers_spec(s, role, seq![b], blocks) == guarded_tiers_spec(
        s2,
        role,
        Seq::<Tier>::empty(),
        blocks,
    ));
}

/// Compression never loses a code block, inline code or a URL: for a text
/// without NUL, every region that masking takes out of it occurs in what
/// compression gives back, whatever the tiers do.
pub proof fn compression_keeps_protected(t: Seq<char>, role: Seq<char>, tiers: Seq<Tier>)
    requires
        no_nul(t),
        t.len() <= usize::MAX,
    ensures
        mask_spec(t) matches Some((_, blocks)) ==> (compress_text_spec(t, role, tiers) matches Ok(
            out,
        ) ==> keeps_blocks(out, blocks)),
{
    if mask_spec(t) is Some {
        mask_unmask_roundtrip(t);
        let (masked, blocks) = mask_spec(t)->0;
        assert(keeps_blocks(t, blocks));
        lemma_guarded_tiers_keep(masked, role, tiers, blocks);
    }
}

/// A text with no ASCII letter, taken as not English, comes back unchanged
/// from compression, whatever the tiers, and nothing is saved on it.
pub proof fn non_english_text_unchanged(t: Seq<char>, role: Seq<char>, tiers: Seq<Tier>, method: TokenMethod)
    requires
        !has_ascii_letter(t),
    ensures
        compress_text_spec(t, role, tiers) == Ok::<Seq<char>, Seq<char>>(t),
        saturating_sub_spec(token_count(t, method), token_count(t, method)) == 0,
        percent_spec(0, token_count(t, method)) == 0,
{
    let o = token_count(t, method);
    if o > 0 {
        assert((200 * 0 + o) / (2 * o) == 0) by (nonlinear_arith)
            requires
                o > 0,
        ;
    }
}

/// The saved share of a compression is a percentage: between 0 and 100.
pub proof fn saved_share_is_percentage(original: nat, compressed: nat)
    ensures
        0 <= percent_spec(saturating_sub_spec(original, compressed), original) <= 100,
{
    let s = saturating_sub_spec(original, compressed);
    if original > 0 {
        assert(0 <= (200 * s + original) / (2 * original) <= 100) by (nonlinear_arith)
            requires
                s <= original,
                original > 0,
        ;
    }
}

/// The text of a message's content when it is a plain string.
pub open spec fn content_text(content: Option<MessageContent>) -> Option<Seq<char>> {
    match content {
        Some(MessageContent::Text(s)) => Some(s@),
        _ => None,
    }
}

/// A message that is compressed: a user or assistant message whose content
/// is a plain string.
pub open spec fn eligible(m: Message) -> bool {
    (m.role@ == "user"@ || m.role@ == "assistant"@) && content_text(m.content) is Some
}

/// A role whose messages are compressed.
pub open spec fn chat_role(role: Seq<char>) -> bool {
    role == "user"@ || role == "assistant"@
}

/// What happens to a message with role `role` and plain text `text` (if it
/// has one): its new text (compressed when the role is a chat role and
/// there is a text) and its original and compressed token counts, or the
/// compression error.
pub open spec fn outcome_for(role: Seq<char>, text: Option<Seq<char>>, config: CompressConfig) -> Result<
    (Seq<char>, nat, nat),
    Seq<char>,
> {
    let t = match text {
        Some(x) => x,
        None => Seq::empty(),
    };
    let method = config.token_method;
    if chat_role(role) && text is Some {
        match compress_text_spec(t, role, config.tiers@) {
            Ok(out) => Ok((out, token_count(t, method), token_count(out, method))),
            Err(e) => Err(e),
        }
    } else {
        Ok((t, token_count(t, method), token_count(t, method)))
    }
}

/// What happens to one message: its new text (for an eligible message) and
/// its original and compressed token counts, or the compression error.
pub open spec fn message_outcome(m: Message, config: CompressConfig) -> Result<
    (Seq<char>, nat, nat),
    Seq<char>,
> {
    outcome_for(m.role@, content_text(m.content), config)
}

/// The original token counts of the messages, added up.
pub open spec fn sum_original(ms: Seq<MessageWithStats>) -> nat
    decreases ms.len(),
{
    if ms.len() == 0 {
        0
    } else {
        sum_original(ms.drop_last()) + ms.last().stats.original_tokens as nat
    }
}

/// The compressed token counts of the messages, added up.
pub open spec fn sum_compressed(ms: Seq<MessageWithStats>) -> nat
    decreases ms.len(),
{
    if ms.len() == 0 {
        0
    } else {
        sum_compressed(ms.drop_last()) + ms.last().stats.compressed_tokens as nat
    }
}

/// The token totals of `msgs` processed in order, or the first error: a
/// compression error or a total that does not fit in `usize`.
pub open spec fn history_totals(msgs: Seq<Message>, config: CompressConfig) -> Result<
    (nat, nat),
    Seq<char>,
>
    decreases msgs.len(),
{
    if msgs.len() == 0 {
        Ok((0, 0))
    } else {
        match history_totals(msgs.drop_last(), config) {
            Err(e) => Err(e),
            Ok((o, c)) => match message_outcome(msgs.last(), config) {
                Err(e) => Err(e),
                Ok((_, mo, mc)) => if o + mo > usize::MAX || c + mc > usize::MAX {
                    Err(TOKEN_OVERFLOW@)
                } else {
                    Ok((o + mo, c + mc))
                },
            },
        }
    }
}

/// `out` is what compressing `m` produces.
pub open spec fn message_result_for(out: MessageWithStats, m: Message, config: CompressConfig) -> bool {
    match message_outcome(m, config) {
        Ok((text, o, c)) => {
            &&& out.role == m.role
            &&& out.extra == m.extra
            &&& out.stats.original_tokens == o
            &&& out.stats.compressed_tokens == c
            &&& out.stats.saved_tokens == saturating_sub_spec(o, c)
            &&& out.stats.saved_percent == percent_spec(saturating_sub_spec(o, c), o)
            &&& if eligible(m) {
                content_text(out.content) == Some(text)
            } else {
                out.content == m.content
            }
        },
        Err(_) => false,
    }
}

proof fn lemma_totals_error_persists(msgs: Seq<Message>, config: CompressConfig, k: int)
    requires
        0 <= k <= msgs.len(),
        history_totals(msgs.take(k), config) is Err,
    ensures
        history_totals(msgs, config) == history_totals(msgs.take(k), config),
    decreases msgs.len() - k,
{
    if k < msgs.len() {
        assert(msgs.take(k + 1).drop_last() =~= msgs.take(k));
        lemma_totals_error_persists(msgs, config, k + 1);
    } else {
        assert(msgs.take(k) =~= msgs);
    }
}

/// The string content of a message, if it has one.
pub fn extract_text(content: &Option<MessageContent>) -> (res: Option<&str>)
    ensures
        match content_text(*content) {
            Some(t) => res matches Some(r) && r@ == t,
            None => res is None,
        },
{
    match content {
        Some(MessageContent::Text(s)) => Some(s.as_str()),
        _ => None,
    }
}

/// Compresses one message of a history when it is eligible and counts its
/// tokens.
fn compress_message(msg: Message, config: &CompressConfig) -> (res: Result<
    MessageWithStats,
    String,
>)
    ensures
        match message_outcome(msg, *config) {
            Ok(_) => res matches Ok(out) && message_result_for(out, msg, *config),
            Err(e) => res matches Err(err) && err@ == e,
        },
{
    let is_chat = str_equal(msg.role.as_str(), "user") || str_equal(msg.role.as_str(), "assistant");
    let compressed = if is_chat {
        match extract_text(&msg.content) {
            Some(text) => Some(run_compress(text, msg.role.as_str(), config)?),
            None => None,
        }
    } else {
        None
    };
    match compressed {
        Some(cr) => {
            let stats = MessageStats {
                original_tokens: cr.original_tokens,
                compressed_tokens: cr.compressed_tokens,
                saved_tokens: cr.saved_tokens,
                saved_percent: cr.saved_percent,
            };
            Ok(
                MessageWithStats {
                    role: msg.role,
                    content: Some(MessageContent::Text(cr.text)),
                    stats,
                    extra: msg.extra,
                },
            )
        },
        None => {
            let empty = String::new();
            let tok = match extract_text(&msg.content) {
                Some(text) => estimate_tokens(text, &config.token_method),
                None => estimate_tokens(empty.as_str(), &config.token_method),
            };
            let tok = match tok {
                Ok(n) => n,
                Err(_) => 0,
            };
            proof {
                let o = tok as nat;
                if o > 0 {
                    assert((200 * 0 + o) / (2 * o) == 0) by (nonlinear_arith)
                        requires
                            o > 0,
                    ;
                }
            }
            let stats = MessageStats {
                original_tokens: tok,
                compressed_tokens: tok,
                saved_tokens: 0,
                saved_percent: 0,
            };
            Ok(MessageWithStats { role: msg.role, content: msg.content, stats, extra: msg.extra })
        },
    }
}

/// Compresses a conversation history: user and assistant messages with
/// string content are compressed, every other message passes through, and
/// every message gets its token counts; the totals cover the whole history.
pub fn run_compress_history(messages: Vec<Message>, config: &CompressConfig) -> (res: Result<
    HistoryResult,
    String,
>)
    ensures
        match history_totals(messages@, *config) {
            Ok((o, c)) => res matches Ok(h) && {
                &&& h.messages@.len() == messages@.len()
                &&& forall|i: int|
                    0 <= i < messages@.len() ==> message_result_for(
                        #[trigger] h.messages@[i],
                        messages@[i],
                        *config,
                    )
                &&& h.stats.total_original_tokens == o
                &&& h.stats.total_compressed_tokens == c
                &&& o == sum_original(h.messages@)
                &&& c == sum_compressed(h.messages@)
                &&& h.stats.total_saved_tokens == saturating_sub_spec(o, c)
                &&& h.stats.total_saved_percent == percent_spec(saturating_sub_spec(o, c), o)
            },
            Err(e) => res matches Err(err) && err@ == e,
        },
{
    let ghost msgs = messages@;
    let n = messages.len();
    let mut output: Vec<MessageWithStats> = Vec::new();
    let mut total_original: usize = 0;
    let mut total_compressed: usize = 0;
    let mut i: usize = 0;
    assert(msgs.take(0) =~= Seq::<Message>::empty());
    for msg in it: messages.into_iter()
        invariant
            msgs == it.seq(),
            n == msgs.len(),
            i == it.index(),
            0 <= i <= msgs.len(),
            history_totals(msgs.take(i as int), *config) == Ok::<(nat, nat), Seq<char>>(
                (total_original as nat, total_compressed as nat),
            ),
            output@.len() == i,
            total_original == sum_original(output@),
            total_compressed == sum_compressed(output@),
            forall|j: int|
                0 <= j < i ==> message_result_for(#[trigger] output@[j], msgs[j], *config),
    {
        assert(msgs[i as int] == msg);
        assert(msgs.take(i + 1).drop_last() =~= msgs.take(i as int));
        assert(msgs.take(i + 1).last() == msg);
        let out = match compress_message(msg, config) {
            Ok(o) => o,
            Err(e) => {
                proof {
                    lemma_totals_error_persists(msgs, *config, i + 1);
                }
                return Err(e);
            },
        };
        if total_original > usize::MAX - out.stats.original_tokens || total_compressed
            > usize::MAX - out.stats.compressed_tokens {
            proof {
                lemma_totals_error_persists(msgs, *config, i + 1);
            }
            return Err(to_owned_string(TOKEN_OVERFLOW));
        }
        total_original = total_original + out.stats.original_tokens;
        total_compressed = total_compressed + out.stats.compressed_tokens;
        let ghost before = output@;
        output.push(out);
        assert(output@.drop_last() =~= before);
        i = i + 1;
    }
    assert(msgs.take(i as int) =~= msgs);
    let total_saved = total_original.saturating_sub(total_compressed);
    let total_saved_percent = saved_percent(total_saved, total_original);
    Ok(
        HistoryResult {
            messages: output,
            stats: HistoryStats {
                total_original_tokens: total_original,
                total_compressed_tokens: total_compressed,
                total_saved_tokens: total_saved,
                total_saved_percent,
            },
        },
    )
}

} // verus!
