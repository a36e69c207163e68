//! Token counting.
use vstd::prelude::*;

use crate::types::TokenMethod;

verus! {

/// The number of `cl100k_base` tokens (special tokens allowed) in `text`.
pub uninterp spec fn cl100k_tokens(text: Seq<char>) -> nat;

/// Counts tokens with `tiktoken_rs::cl100k_base_singleton` and
/// `CoreBPE::encode_with_special_tokens`. Claimed: the count is a function
/// of the text alone. The singleton loads the embedded encoding on first use
/// and panics if that fails; nothing here states that it succeeds.
#[verifier::external_body]
fn cl100k_token_count(text: &str) -> (res: usize)
    ensures
        res == cl100k_tokens(text@),
{
    tiktoken_rs::cl100k_base_singleton().encode_with_special_tokens(text).len()
}

/// The token estimate of `text` under `method`: a quarter of its UTF-8 byte
/// length rounded up, or its `cl100k_base` token count.
pub open spec fn token_count(text: Seq<char>, method: TokenMethod) -> nat {
    match method {
        TokenMethod::Chars => ((vstd::utf8::encode_utf8(text).len() + 3) / 4) as nat,
        TokenMethod::Tiktoken => cl100k_tokens(text),
    }
}

/// Estimates the number of tokens in `text`.
pub fn estimate_tokens(text: &str, method: &TokenMethod) -> (res: Result<usize, String>)
    ensures
        res matches Ok(n) && n == token_count(text@, *method),
{
    match method {
        TokenMethod::Chars => {
            let len = crate::text::byte_len(text);
            let n = len / 4 + if len % 4 != 0 {
                1
            } else {
                0
            };
            assert(n == (len + 3) / 4) by (nonlinear_arith)
                requires
                    n == len / 4 + if len % 4 != 0 {
                        1int
                    } else {
                        0int
                    },
            ;
            Ok(n)
        },
        TokenMethod::Tiktoken => Ok(cl100k_token_count(text)),
    }
}

} // verus!
