//! User openers ("Hi,", "Could you please ..."), closers ("Thanks!") and
//! the gerund-to-imperative rewrite of the first word.
use vstd::prelude::*;
use vstd::utf8::is_ascii_chars;

use crate::pattern::{
    first_capture, first_fold, first_step, pattern_compiles, regex_error, regex_first_capture,
    regex_replace_first, replace_first, replace_first_each, replace_first_result, views, yields,
};
use crate::text::{
    capitalize_first, capitalize_spec, chars_of, str_equal, string_from_chars, trim, trim_spec,
    trim_start, trim_start_spec,
};

verus! {

/// Openers anchored at the start of the message.
pub const USER_OPENERS: [&'static str; 43] = [
    r"(?i)^Good (morning|afternoon|evening)[,!.]?\s*",
    r"(?i)^(Howdy|Greetings)[,!.]?\s*",
    r"(?i)^(Hey|Hi|Hello)\s+\w+[,.!]\s*",
    r"(?i)^(Hey|Hi|Hello)[,!.]?\s+",
    r"(?i)^(Okay|OK|Alright|Right|Well|Now)[,.]\s*",
    r"(?i)^So[,.]\s*",
    r"(?i)^Great[,.]\s*",
    r"(?i)^(Wait|Oh)[,!.]?\s*",
    r"(?i)^(Hmm+|Hm)[,!.\u{2026}]?\s*",
    r"(?i)^(Also|Additionally)[,.]\s*",
    r"(?i)^And[,.]\s*",
    r"(?i)^Quick question[,:!]?\s*",
    r"(?i)^Just a quick (question|one)[,:!]?\s*",
    r"(?i)^(One|Another) (more|quick) (thing|question)[,:!]?\s*",
    r"(?i)^Follow[- ]?up (question\s*)?[,:!]?\s*",
    r"(?i)^(Newbie|Beginner|Novice|Silly|Dumb|Stupid|Random|Side|Hypothetical) question[,:!]?\s*",
    r"(?i)^Please[,.]?\s+",
    r"(?i)^Kindly[,.]?\s+",
    r"(?i)^(Sorry|Apologies)[,.]?\s+if this is( a)? (dumb|silly|basic|stupid|obvious) question[,.]?\s*(but\s+)?",
    r"(?i)^(Sorry|Apologies)[,.]?\s+for (the |a )?(dumb|silly|basic|stupid) question[,.]?\s*(but\s+)?",
    r"(?i)^This might be obvious[,.]?\s+(but\s+)?",
    r"(?i)^I know this (might|may|could) be (obvious|simple|basic|silly|dumb)[,.]?\s*(but\s+)?",
    r"(?i)^Forgive me if (I['\u{2019}]m wrong|this is obvious)[,.]?\s+(but\s+)?",
    r"(?i)^Not sure if this is (relevant|the right place)[,.]?\s+(but\s+)?",
    r"(?i)^I (might|may|could) be (wrong|mistaken)[,.]?\s+(but\s+)?",
    r"(?i)^Correct me if I['\u{2019}]m wrong[,.]?\s+(but\s+)?",
    r"(?i)^I['\u{2019}]m (probably |likely )?(wrong|mistaken)[,.]?\s+(but\s+)?",
    r"(?i)^I['\u{2019}]m not sure (if|whether) this is (right|correct|relevant)[,.]?\s*(but\s+)?",
    r"(?i)^I (have|had) a (quick\s+)?(question|query)[,.]?\s*(about|on|regarding)?\s*",
    r"(?i)^If you have (a moment|a minute|time|a chance)[,.]?\s*(could|can|would) you\s+",
    r"(?i)^When(ever)? you (have|get) (a moment|a minute|a chance)[,.]?\s*(could|can|would) you\s+",
    r"(?i)^Do you mind\s+",
    r"(?i)^(Could|May) I ask you to\s+",
    r"(?i)^I['\u{2019}]d appreciate (it )?if you could\s+",
    r"(?i)^Do you think you could\s+",
    r"(?i)^Would it be possible( for you)? to\s+",
    r"(?i)^I(?:['\u{2019}]m| was| am) (just )?wondering if you could\s+",
    r"(?i)^I was hoping (you could|you can)\s+",
    r"(?i)^I['\u{2019}]m hoping (you could|you can)\s+",
    r"(?i)^(Can|Could) you (please\s+)?(help me\s+)?",
    r"(?i)^Would you (be able to|mind\s+)",
    r"(?i)^I(['\u{2019}]d like| want| need)( you)? to\s+",
    r"(?i)^Is it possible( for you)? to\s+",
];

/// Closers anchored at the end of the message.
pub const USER_CLOSERS: [&'static str; 11] = [
    r"(?i)[,]?\s*[Mm]any [Tt]hanks[.!]?\s*$",
    r"(?i)[,]?\s*[Mm]uch appreciated[.!]?\s*$",
    r"(?i)[,]?\s*[Cc]heers[.!]?\s*$",
    r"(?i)[,]?\s*[Tt]hank(s| you)( (very much|so much|a lot|in advance|again|for everything))?[.!]?\s*$",
    r"(?i)[,]?\s*[Ii] (really |truly |greatly )?appreciate (it|your (help|time|assistance|patience))[.!]?\s*$",
    r"(?i)[,]?\s*[Tt]hanks for (your (help|time|assistance|patience)|helping( me)?)[.!]?\s*$",
    r"(?i)[,]?\s*[Hh]ope (this|that)\s+[^.!?]{0,60}[.!?]?\s*$",
    r"(?i)[,]?\s*([Pp]lease\s+|[Jj]ust\s+)?[Ll]et me know if\s+[^.!?]{0,80}[.!?]?\s*$",
    r"(?i)[,]?\s*[Hh]appy to (provide more (details|context|info(rmation)?)|elaborate|clarify|share more)[^.!?]{0,60}[.!?]?\s*$",
    r"(?i)[,]?\s*[Ff]eel free to (ask|let me know)[^.]*[.!]?\s*$",
    r"(?i)[,]?\s*[Ss]orry (for (the )?(long|lengthy) (message|post|explanation|question)|if (that['\u{2019}]?s|this is) (confusing|unclear|too long))[.!]?\s*$",
];

/// A leading lower-case word ending in "ing", captured as group 1.
pub const GERUND_TO_IMPERATIVE: &'static str = r"^([a-z]+ing)\b";

// ---------------------------------------------------------------------------
// Gerund to imperative
// ---------------------------------------------------------------------------

/// One of the letters `a e i o u`.
pub open spec fn is_vowel(c: char) -> bool {
    c == 'a' || c == 'e' || c == 'i' || c == 'o' || c == 'u'
}

/// The ASCII lower-case form of `c` (unchanged outside `A..=Z`).
pub open spec fn ascii_lower(c: char) -> char {
    if 'A' <= c && c <= 'Z' {
        ((c as u32) + 32) as char
    } else {
        c
    }
}

/// `s` with ASCII capitals lowered (what `str::to_lowercase` does to ASCII).
pub open spec fn lower_seq(s: Seq<char>) -> Seq<char> {
    s.map_values(|c: char| ascii_lower(c))
}

/// `s` ends in "ing".
pub open spec fn ends_with_ing(s: Seq<char>) -> bool {
    s.len() >= 3 && s[s.len() - 3] == 'i' && s[s.len() - 2] == 'n' && s[s.len() - 1] == 'g'
}

/// `s` with every trailing "ing" removed (what `trim_end_matches("ing")` does).
pub open spec fn strip_ing(s: Seq<char>) -> Seq<char>
    decreases s.len(),
{
    if ends_with_ing(s) {
        strip_ing(s.take(s.len() - 3))
    } else {
        s
    }
}

/// A doubled final consonant is halved ("runn" becomes "run").
pub open spec fn undouble(s: Seq<char>) -> Seq<char> {
    if s.len() >= 2 && s[s.len() - 1] == s[s.len() - 2] && !is_vowel(s[s.len() - 2]) {
        s.take(s.len() - 1)
    } else {
        s
    }
}

/// A stem that probably lost a final "e" gets it back: it ends in `v`, `z`
/// or `c`, or in a vowel followed by a consonant.
pub open spec fn restore_e(stem: Seq<char>) -> Seq<char> {
    if stem.len() > 0 && stem.last() == 'e' {
        stem
    } else {
        let last = if stem.len() > 0 {
            stem.last()
        } else {
            'x'
        };
        let needs_e = last == 'v' || last == 'z' || last == 'c' || (stem.len() >= 2 && !is_vowel(
            last,
        ) && is_vowel(stem[stem.len() - 2]));
        if needs_e {
            stem.push('e')
        } else {
            stem
        }
    }
}

/// The capitalised imperative form of an ASCII gerund: the stem without
/// "ing", with a doubled final consonant halved ("running" gives "run") or,
/// when there was none, a likely final "e" restored ("making" gives "make").
pub open spec fn imperative_spec(g: Seq<char>) -> Seq<char> {
    let raw = strip_ing(lower_seq(g));
    let stem = undouble(raw);
    capitalize_spec(
        if stem.len() < raw.len() {
            stem
        } else {
            restore_e(stem)
        },
    )
}

proof fn lemma_strip_ing_take(s: Seq<char>, k: int)
    requires
        0 <= k <= s.len(),
        ends_with_ing(s.take(k)),
    ensures
        strip_ing(s.take(k)) == strip_ing(s.take(k - 3)),
{
    assert(s.take(k).take(k - 3) =~= s.take(k - 3));
}

fn is_vowel_exec(c: char) -> (res: bool)
    ensures
        res == is_vowel(c),
{
    c == 'a' || c == 'e' || c == 'i' || c == 'o' || c == 'u'
}

/// Naive English gerund to imperative: lower-cases, strips "ing", halves a
/// doubled final consonant or else restores a likely final "e", and capitalises
/// ("running" to "Run", "making" to "Make"). Only ASCII gerunds are read:
/// the pattern that finds them matches `[a-z]` alone.
pub fn gerund_to_imperative(gerund: &str) -> (res: String)
    requires
        is_ascii_chars(gerund@),
    ensures
        res@ == imperative_spec(gerund@),
{
    let src = chars_of(gerund);
    let mut lower: Vec<char> = Vec::new();
    let mut i: usize = 0;
    while i < src.len()
        invariant
            0 <= i <= src@.len(),
            lower@ == lower_seq(src@.take(i as int)),
        decreases src@.len() - i,
    {
        let c = src[i];
        let l = if 'A' <= c && c <= 'Z' {
            ((c as u8) + 32) as char
        } else {
            c
        };
        lower.push(l);
        assert(src@.take(i + 1) =~= src@.take(i as int).push(c));
        assert(lower@ =~= lower_seq(src@.take(i + 1)));
        i = i + 1;
    }
    assert(src@.take(src@.len() as int) =~= src@);
    // Strip every trailing "ing".
    let mut k: usize = lower.len();
    assert(lower@.take(k as int) =~= lower@);
    while k >= 3 && lower[k - 3] == 'i' && lower[k - 2] == 'n' && lower[k - 1] == 'g'
        invariant
            0 <= k <= lower@.len(),
            strip_ing(lower@) == strip_ing(lower@.take(k as int)),
        decreases k,
    {
        proof {
            lemma_strip_ing_take(lower@, k as int);
        }
        k = k - 3;
    }
    let ghost stem_raw = lower@.take(k as int);
    assert(strip_ing(lower@) == stem_raw);
    // Halve a doubled final consonant.
    let mut n = k;
    if k >= 2 && lower[k - 1] == lower[k - 2] && !is_vowel_exec(lower[k - 2]) {
        n = k - 1;
    }
    let ghost stem = lower@.take(n as int);
    assert(stem =~= undouble(stem_raw));
    let mut out: Vec<char> = Vec::new();
    let mut j: usize = 0;
    while j < n
        invariant
            0 <= j <= n,
            n <= lower@.len(),
            out@ == lower@.take(j as int),
        decreases n - j,
    {
        out.push(lower[j]);
        assert(lower@.take(j + 1) =~= lower@.take(j as int).push(lower@[j as int]));
        j = j + 1;
    }
    assert(out@ =~= stem);
    // Restore a likely final "e", unless a doubled consonant was halved.
    if n == k && !(n > 0 && lower[n - 1] == 'e') {
        let last = if n > 0 {
            lower[n - 1]
        } else {
            'x'
        };
        let needs_e = last == 'v' || last == 'z' || last == 'c' || (n >= 2 && !is_vowel_exec(last)
            && is_vowel_exec(lower[n - 2]));
        if needs_e {
            out.push('e');
        }
    }
    assert(out@ =~= if stem.len() < stem_raw.len() {
        stem
    } else {
        restore_e(stem)
    });
    let word = string_from_chars(out.as_slice());
    capitalize_first(word.as_str())
}

// ---------------------------------------------------------------------------
// Boilerplate removal
// ---------------------------------------------------------------------------

/// Each opener in turn is tried on the trimmed text; when it strips
/// something, the rest is trimmed and its first letter capitalised.
pub open spec fn strip_user_openers(r: Seq<char>, pats: Seq<Seq<char>>) -> Option<Seq<char>>
    decreases pats.len(),
{
    if pats.len() == 0 {
        Some(r)
    } else if !pattern_compiles(pats[0]) {
        None
    } else {
        let current = trim_start_spec(r);
        let stripped = replace_first_result(pats[0], current, ""@);
        let next = if stripped != current {
            capitalize_spec(trim_start_spec(stripped))
        } else {
            r
        };
        strip_user_openers(next, pats.drop_first())
    }
}

/// Openers are tried in turn, each on the text the earlier ones left:
/// stripping with `first` and then `second` is stripping with `first`, then
/// with `second` on its result. A match does not end the stripping.
pub proof fn openers_strip_in_turn(r: Seq<char>, first: Seq<Seq<char>>, second: Seq<Seq<char>>)
    ensures
        strip_user_openers(r, first + second) == match strip_user_openers(r, first) {
            Some(s) => strip_user_openers(s, second),
            None => None,
        },
    decreases first.len(),
{
    if first.len() == 0 {
        assert(first + second =~= second);
    } else {
        let all = first + second;
        assert(all[0] == first[0]);
        assert(all.drop_first() =~= first.drop_first() + second);
        if pattern_compiles(first[0]) {
            let current = trim_start_spec(r);
            let stripped = replace_first_result(first[0], current, ""@);
            let next = if stripped != current {
                capitalize_spec(trim_start_spec(stripped))
            } else {
                r
            };
            openers_strip_in_turn(next, first.drop_first(), second);
        }
    }
}

/// A leading ASCII gerund is replaced by its imperative form.
pub open spec fn gerund_step(r: Seq<char>) -> Option<Seq<char>> {
    if !pattern_compiles(GERUND_TO_IMPERATIVE@) {
        None
    } else {
        match first_capture(GERUND_TO_IMPERATIVE@, r, 1) {
            Some(g) => if is_ascii_chars(g) {
                first_step(Some(r), GERUND_TO_IMPERATIVE@, imperative_spec(g))
            } else {
                Some(r)
            },
            None => Some(r),
        }
    }
}

/// Closers removed, openers stripped with re-capitalisation, a leading
/// gerund made imperative, and the result trimmed.
pub open spec fn remove_user_boilerplate_spec(t: Seq<char>) -> Option<Seq<char>> {
    match first_fold(Some(t), views(USER_CLOSERS@), ""@) {
        Some(a) => match strip_user_openers(a, views(USER_OPENERS@)) {
            Some(b) => match gerund_step(b) {
                Some(c) => Some(trim_spec(c)),
                None => None,
            },
            None => None,
        },
        None => None,
    }
}

/// Strips user pleasantries and hedges and turns a leading gerund into an
/// imperative ("Figuring out X" becomes "Figure out X").
pub fn remove_user_boilerplate(text: &str) -> (res: Result<String, String>)
    ensures
        yields(res, remove_user_boilerplate_spec(text@)),
{
    let closed = replace_first_each(&USER_CLOSERS, text, "")?;
    let ghost all = views(USER_OPENERS@);
    let ghost closed_v = closed@;
    let mut result = closed;
    let mut i: usize = 0;
    assert(all.skip(0) =~= all);
    while i < USER_OPENERS.len()
        invariant
            0 <= i <= USER_OPENERS@.len(),
            all == views(USER_OPENERS@),
            first_fold(Some(text@), views(USER_CLOSERS@), ""@) == Some(closed_v),
            strip_user_openers(closed_v, all) == strip_user_openers(result@, all.skip(i as int)),
        decreases USER_OPENERS@.len() - i,
    {
        assert(all.skip(i as int).drop_first() =~= all.skip(i + 1));
        assert(all.skip(i as int)[0] == USER_OPENERS@[i as int]@);
        let current = trim_start(result.as_str());
        match regex_replace_first(USER_OPENERS[i], current.as_str(), "") {
            Some(stripped) => {
                if !str_equal(stripped.as_str(), current.as_str()) {
                    let rest = trim_start(stripped.as_str());
                    result = capitalize_first(rest.as_str());
                }
            },
            None => {
                return Err(regex_error());
            },
        }
        i = i + 1;
    }
    assert(all.skip(i as int) =~= Seq::<Seq<char>>::empty());
    let ghost opened = result@;
    match regex_first_capture(GERUND_TO_IMPERATIVE, result.as_str(), 1) {
        None => {
            return Err(regex_error());
        },
        Some(None) => {},
        Some(Some(g)) => {
            if g.as_str().is_ascii() {
                let imperative = gerund_to_imperative(g.as_str());
                result = replace_first(GERUND_TO_IMPERATIVE, result.as_str(), imperative.as_str())?;
            }
        },
    }
    assert(gerund_step(opened) == Some(result@));
    Ok(trim(result.as_str()))
}

} // verus!
