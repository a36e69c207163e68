//! The NLP tier: article and intensifier removal, synonym substitution.
pub mod vocab;

use vstd::prelude::*;

use crate::pattern::{
    all_step, escape_result, pair_fold, regex_escape, replace_all, then, yields,
};
use crate::text::{join, join_spec, to_owned_string};
use vocab::{INTENSIFIERS, NOUN_SYNONYMS, VERB_SYNONYMS};

verus! {

/// An article followed by whitespace and a letter; the letter is captured so
/// that it can be kept.
pub const ARTICLE_RE: &'static str = r"(?i)\b(?:a|an|the)\s+([A-Za-z])";

/// The pattern matching any intensifier followed by whitespace.
pub open spec fn intensifier_pattern_spec() -> Seq<char> {
    r"(?i)\b(?:"@ + join_spec(crate::pattern::views(INTENSIFIERS@), "|"@) + r")\s+"@
}

/// The case-insensitive whole-word pattern for `word`.
pub open spec fn word_pattern_spec(word: Seq<char>) -> Seq<char> {
    r"(?i)\b"@ + escape_result(word) + r"\b"@
}

/// Each (word, synonym) pair as a (pattern, replacement) pair.
pub open spec fn synonym_rules(pairs: Seq<(&str, &str)>) -> Seq<(Seq<char>, Seq<char>)> {
    pairs.map_values(|p: (&str, &str)| (word_pattern_spec(p.0@), p.1@))
}

/// Articles dropped (keeping the next word's first letter), intensifiers
/// dropped, then verb and noun synonyms substituted.
pub open spec fn apply_nlp_spec(t: Seq<char>) -> Option<Seq<char>> {
    let a = all_step(Some(t), ARTICLE_RE@, "$1"@);
    let b = all_step(a, intensifier_pattern_spec(), ""@);
    let c = pair_fold(b, synonym_rules(VERB_SYNONYMS@));
    pair_fold(c, synonym_rules(NOUN_SYNONYMS@))
}

/// Synonym substitution ignores case and matches whole words: the pattern
/// of every (word, synonym) pair begins with the case-insensitive flag and
/// a word boundary, ends with a word boundary, and the synonym replaces
/// what it matches.
pub proof fn synonym_patterns_ignore_case(pairs: Seq<(&str, &str)>, i: int)
    requires
        0 <= i < pairs.len(),
    ensures
        synonym_rules(pairs)[i].0.take(6) == r"(?i)\b"@,
        synonym_rules(pairs)[i].0.take(4) == "(?i)"@,
        synonym_rules(pairs)[i].0.skip(synonym_rules(pairs)[i].0.len() - 2) == r"\b"@,
        synonym_rules(pairs)[i].1 == pairs[i].1@,
{
    reveal_strlit(r"(?i)\b");
    reveal_strlit("(?i)");
    reveal_strlit(r"\b");
    let p = synonym_rules(pairs)[i].0;
    let w = escape_result(pairs[i].0@);
    assert(p == r"(?i)\b"@ + w + r"\b"@);
    assert(p.take(6) =~= r"(?i)\b"@);
    assert(p.take(4) =~= "(?i)"@);
    assert(p.skip(p.len() - 2) =~= r"\b"@);
}

/// Builds the intensifier pattern from the word list.
fn intensifier_pattern() -> (res: String)
    ensures
        res@ == intensifier_pattern_spec(),
{
    let mut p = to_owned_string(r"(?i)\b(?:");
    let alts = join(&INTENSIFIERS, "|");
    p.append(alts.as_str());
    p.append(r")\s+");
    p
}

/// Builds the whole-word pattern for `word`.
fn word_pattern(word: &str) -> (res: String)
    ensures
        res@ == word_pattern_spec(word@),
{
    let mut p = to_owned_string(r"(?i)\b");
    let escaped = regex_escape(word);
    p.append(escaped.as_str());
    p.append(r"\b");
    p
}

proof fn lemma_pair_fold_none(pairs: Seq<(Seq<char>, Seq<char>)>)
    ensures
        pair_fold(None, pairs) is None,
    decreases pairs.len(),
{
    if pairs.len() > 0 {
        lemma_pair_fold_none(pairs.drop_first());
    }
}

/// Substitutes each word of `pairs` by its synonym.
fn substitute_synonyms(pairs: &[(&str, &str)], text: &str) -> (res: Result<String, String>)
    ensures
        yields(res, pair_fold(Some(text@), synonym_rules(pairs@))),
{
    let ghost all = synonym_rules(pairs@);
    let mut cur = to_owned_string(text);
    let mut i: usize = 0;
    assert(all.skip(0) =~= all);
    while i < pairs.len()
        invariant
            0 <= i <= pairs@.len(),
            all == synonym_rules(pairs@),
            pair_fold(Some(text@), all) == pair_fold(Some(cur@), all.skip(i as int)),
        decreases pairs@.len() - i,
    {
        assert(all.skip(i as int).drop_first() =~= all.skip(i + 1));
        let (long, short) = pairs[i];
        let pat = word_pattern(long);
        assert(all.skip(i as int)[0] == (pat@, short@));
        match replace_all(pat.as_str(), cur.as_str(), short) {
            Ok(s) => {
                cur = s;
            },
            Err(e) => {
                proof {
                    lemma_pair_fold_none(all.skip(i + 1));
                }
                return Err(e);
            },
        }
        i = i + 1;
    }
    assert(all.skip(i as int) =~= Seq::<(Seq<char>, Seq<char>)>::empty());
    Ok(cur)
}

/// Runs the NLP tier: drops articles and intensifiers and substitutes
/// shorter synonyms. The role does not change what it does.
pub fn apply_nlp(text: &str, _role: &str) -> (res: Result<String, String>)
    ensures
        yields(res, apply_nlp_spec(text@)),
{
    proof {
        lemma_pair_fold_none(synonym_rules(VERB_SYNONYMS@));
        lemma_pair_fold_none(synonym_rules(NOUN_SYNONYMS@));
    }
    let a = replace_all(ARTICLE_RE, text, "$1")?;
    let pat = intensifier_pattern();
    let b = replace_all(pat.as_str(), a.as_str(), "")?;
    let c = substitute_synonyms(&VERB_SYNONYMS, b.as_str())?;
    substitute_synonyms(&NOUN_SYNONYMS, c.as_str())
}

} // verus!
