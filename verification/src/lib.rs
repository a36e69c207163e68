//! Compression of LLM conversation text: boilerplate, filler and verbose
//! phrasing removed while code blocks, inline code and URLs are kept.
use vstd::prelude::*;

pub mod banner;
pub mod cli;
pub mod config;
pub mod gains;
pub mod install;
pub mod mask;
pub mod pattern;
pub mod pipeline;
pub mod proxy;
pub mod report;
pub mod settings;
pub mod text;
pub mod tiers;
pub mod tokens;
pub mod types;
pub mod utils;

pub use config::default_config;
pub use pipeline::{run_compress, run_compress_history};
pub use types::{
    CompressConfig, CompressResult, HistoryResult, Message, MessageContent, MessageWithStats, Tier,
    TokenMethod,
};

use mask::{mask_spec, no_nul};
use pipeline::{
    compress_text_spec, history_totals, keeps_blocks, message_result_for, percent_spec, result_for,
    saturating_sub_spec, sum_compressed, sum_original,
};

verus! {

/// Compresses a single text written by `role`.
pub fn compress(text: &str, role: &str, config: &CompressConfig) -> (res: Result<
    CompressResult,
    String,
>)
    ensures
        match compress_text_spec(text@, role@, config.tiers@) {
            Ok(out) => res matches Ok(r) && result_for(r, text@, out, config.token_method),
            Err(e) => res matches Err(err) && err@ == e,
        },
        no_nul(text@) ==> (mask_spec(text@) matches Some((_, blocks)) ==> (res matches Ok(r)
            ==> keeps_blocks(r.text@, blocks))),
{
    pipeline::run_compress(text, role, config)
}

/// Compresses a history of messages.
pub fn compress_history(messages: Vec<Message>, config: &CompressConfig) -> (res: Result<
    HistoryResult,
    String,
>)
    ensures
        match history_totals(messages@, *config) {
            Ok((o, c)) => res matches Ok(h) && {
                &&& h.messages@.len() == messages@.len()
                &&& forall|i: int|
                    0 <= i < messages@.len() ==> message_result_for(
                        #[trigger] h.messages@[i],
                        messages@[i],
                        *config,
                    )
                &&& h.stats.total_original_tokens == o
                &&& h.stats.total_compressed_tokens == c
                &&& o == sum_original(h.messages@)
                &&& c == sum_compressed(h.messages@)
                &&& h.stats.total_saved_tokens == saturating_sub_spec(o, c)
                &&& h.stats.total_saved_percent == percent_spec(saturating_sub_spec(o, c), o)
            },
            Err(e) => res matches Err(err) && err@ == e,
        },
{
    pipeline::run_compress_history(messages, config)
}

} // verus!
