//! Assistant openers ("Certainly!") and closers ("I hope this helps!").
use vstd::prelude::*;

use crate::pattern::{
    first_fold, pattern_compiles, regex_replace_first, regex_error, replace_first_each,
    replace_first_result, views, yields,
};
use crate::text::{str_equal, to_owned_string};

verus! {

/// Openers anchored at the start of the message.
pub const ASSISTANT_OPENERS: [&'static str; 27] = [
    r"(?i)^(Certainly|Sure|Absolutely|Of course|Indeed)[!,.]?\s*",
    r"(?i)^(No problem|Happy to help|Glad to help|Got it|Understood|Perfect|Excellent|Awesome|Wonderful)[!,.]?\s*",
    r"(?i)^(That['\u{2019}]s a great|What a great) (question|point|observation|catch)[!,.]?\s*",
    r"(?i)^(Great|Good|Excellent|Nice) (question|point|observation|catch)[!,.]?\s*",
    r"(?i)^I['\u{2019}]d be (happy|glad|delighted) to (help|assist)[^.]*[.!]\s*",
    r"(?i)^I['\u{2019}]m (happy|glad) to (help|assist)[^.]*[.!]\s*",
    r"(?i)^I (understand|see)[.!]\s*",
    r"(?i)^I understand what you['\u{2019}]re [^.]{0,50}[.!]\s*",
    r"(?i)^I see what you (mean|are (saying|getting at))[.!]\s*",
    r"(?i)^That (makes sense|is correct|sounds right)[.!]\s*",
    r"(?i)^That['\u{2019}]s (a )?(good|great|valid|fair|reasonable) (point|question|observation|catch|approach)[!,.]?\s*",
    r"(?i)^You['\u{2019}]re (absolutely |totally |completely )?right[.!]\s*",
    r"(?i)^Let me (help you with (that|this)|take care of (that|this))[.!]\s*",
    r"(?i)^Let me walk you through (this|that)[.!]\s*",
    r"(?i)^Let me (explain|clarify)(\.|\!| that\.| this\.)\s*",
    r"(?i)^Let me break (this|that) down[.!]\s*",
    r"(?i)^Let me (take a look|look into (this|that))[.!]\s*",
    r"(?i)^Let me address (that|this|your question)[.!]\s*",
    r"(?i)^I['\u{2019}]ll (help you with (that|this)|take care of (that|this)|get (that|this) done)[.!]\s*",
    r"(?i)^I (can|will) (help|do that|help you with (that|this))[.!]\s*",
    r"(?i)^Based on (what you['\u{2019}]ve (described|shared|said|provided)|your (question|message|description|code|error))[,.]?\s*",
    r"(?i)^Looking at (this|that|your (code|error|message|question|issue|problem))[,.]?\s*",
    r"(?i)^From what (you['\u{2019}]ve (described|shared|said)|I can see)[,.]?\s*",
    r"(?i)^To (answer|address) your question[,.]?\s*",
    r"(?i)^In (response|answer) to your question[,.]?\s*",
    r"(?i)^As an AI (language model|assistant)[,.]?\s*",
    r"(?i)^Thank you for (your question|asking|reaching out)[^.]*[.!]\s*",
];

/// Closers anchored at the end of the message.
pub const ASSISTANT_CLOSERS: [&'static str; 13] = [
    r"(?i)\s*I hope this (helps|answers|clarifies)[^.]*[.!]?\s*$",
    r"(?i)\s*Hope (this|that) [^.!?]{0,60}[.!]?\s*$",
    r"(?i)\s*Let me know\b[^.!?]{0,80}[.!?]?\s*$",
    r"(?i)\s*Feel free to (ask|reach out|let me know|contact me)[^.]*[.!?]\s*$",
    r"(?i)\s*If you (have|need) (any |more )?(questions?|help|issues?|problems?|anything)[^.]*[.!]\s*$",
    r"(?i)\s*(Happy|Glad) to (help|clarify|assist)( further| more| with (that|anything))?[.!]\s*$",
    r"(?i)\s*Is there anything else[^.]*[?!]\s*$",
    r"(?i)\s*Don['\u{2019}]t hesitate to[^.]*[.!]\s*$",
    r"(?i)\s*Please (let me know|feel free)[^.]*[.!]\s*$",
    r"(?i)\s*Does (that|this) (make sense|help|work( for you)?)\??[.!]?\s*$",
    r"(?i)\s*That should (do it|work( for you)?)[.!]\s*$",
    r"(?i)\s*(Give (that|this) a try|Try (that|this) out)[^.]*[.!]\s*$",
    r"(?i)\s*(Shall I|Should I|Would you like me to)[^?]*\??\s*$",
];

/// The first opener (in order) that changes `t` is removed; if none does,
/// `t` is kept. `None` when a pattern tried does not compile.
pub open spec fn strip_first_opener(t: Seq<char>, pats: Seq<Seq<char>>) -> Option<Seq<char>>
    decreases pats.len(),
{
    if pats.len() == 0 {
        Some(t)
    } else if !pattern_compiles(pats[0]) {
        None
    } else {
        let stripped = replace_first_result(pats[0], t, ""@);
        if stripped != t {
            Some(stripped)
        } else {
            strip_first_opener(t, pats.drop_first())
        }
    }
}

/// Every closer removes its first match, then the first opener that
/// matches is removed.
pub open spec fn remove_assistant_boilerplate_spec(t: Seq<char>) -> Option<Seq<char>> {
    match first_fold(Some(t), views(ASSISTANT_CLOSERS@), ""@) {
        Some(s) => strip_first_opener(s, views(ASSISTANT_OPENERS@)),
        None => None,
    }
}

/// Strips assistant closers, then the first assistant opener that matches.
pub fn remove_assistant_boilerplate(text: &str) -> (res: Result<String, String>)
    ensures
        yields(res, remove_assistant_boilerplate_spec(text@)),
{
    let result = replace_first_each(&ASSISTANT_CLOSERS, text, "")?;
    let ghost all = views(ASSISTANT_OPENERS@);
    let mut i: usize = 0;
    assert(all.skip(0) =~= all);
    while i < ASSISTANT_OPENERS.len()
        invariant
            0 <= i <= ASSISTANT_OPENERS@.len(),
            all == views(ASSISTANT_OPENERS@),
            remove_assistant_boilerplate_spec(text@) == strip_first_opener(result@, all),
            strip_first_opener(result@, all) == strip_first_opener(result@, all.skip(i as int)),
        decreases ASSISTANT_OPENERS@.len() - i,
    {
        assert(all.skip(i as int).drop_first() =~= all.skip(i + 1));
        assert(all.skip(i as int)[0] == ASSISTANT_OPENERS@[i as int]@);
        match regex_replace_first(ASSISTANT_OPENERS[i], result.as_str(), "") {
            Some(stripped) => {
                if !str_equal(stripped.as_str(), result.as_str()) {
                    return Ok(stripped);
                }
            },
            None => {
                return Err(regex_error());
            },
        }
        i = i + 1;
    }
    assert(all.skip(i as int) =~= Seq::<Seq<char>>::empty());
    Ok(result)
}

} // verus!
