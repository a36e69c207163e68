//! Regular-expression search and replacement through the `regex` and
//! `fancy_regex` crates. Each trusted item here compiles the pattern it is
//! given and makes one call; what the call computes is named by a spec
//! function of the pattern and haystack, since the matching semantics of a
//! regular expression take pages to state.
use vstd::prelude::*;
use vstd::utf8::*;

verus! {

/// Whether `regex::Regex::new` accepts `pattern`.
pub uninterp spec fn pattern_compiles(pattern: Seq<char>) -> bool;

/// What `regex::Regex::replace_all` returns for a compiled `pattern`,
/// `haystack` and replacement template `rep` (with `$n` expansion).
pub uninterp spec fn replace_all_result(
    pattern: Seq<char>,
    haystack: Seq<char>,
    rep: Seq<char>,
) -> Seq<char>;

/// What `regex::Regex::replace` (first match only) returns for a compiled
/// `pattern`, `haystack` and replacement template `rep`.
pub uninterp spec fn replace_first_result(
    pattern: Seq<char>,
    haystack: Seq<char>,
    rep: Seq<char>,
) -> Seq<char>;

/// The byte spans `(start, end)` of the successive matches that
/// `regex::Regex::find_iter` yields.
pub uninterp spec fn match_spans(pattern: Seq<char>, haystack: Seq<char>) -> Seq<(usize, usize)>;

/// The text of capture group `group` in the first match that
/// `regex::Regex::captures` finds (`None` when there is no match or the group
/// did not take part in it).
pub uninterp spec fn first_capture(pattern: Seq<char>, haystack: Seq<char>, group: usize) -> Option<
    Seq<char>,
>;

/// What `regex::Regex::is_match` returns.
pub uninterp spec fn is_match_result(pattern: Seq<char>, haystack: Seq<char>) -> bool;

/// What `regex::escape` returns: `text` with every meta character escaped.
pub uninterp spec fn escape_result(text: Seq<char>) -> Seq<char>;

/// Whether `fancy_regex::Regex::new` accepts `pattern`.
pub uninterp spec fn fancy_pattern_compiles(pattern: Seq<char>) -> bool;

/// What `fancy_regex::Regex::try_replacen` with no limit returns: the text
/// with every match replaced, or `None` when matching hits a run-time error
/// such as the backtracking limit.
pub uninterp spec fn fancy_replace_all_result(
    pattern: Seq<char>,
    haystack: Seq<char>,
    rep: Seq<char>,
) -> Option<Seq<char>>;

/// Spans that `find_iter` can yield on `haystack`: each lies within the
/// UTF-8 encoding, starts no later than it ends, begins and ends on a
/// character boundary, and comes no earlier than the end of the one before.
pub open spec fn spans_well_formed(spans: Seq<(usize, usize)>, haystack: Seq<char>) -> bool {
    let bytes = encode_utf8(haystack);
    &&& forall|i: int|
        0 <= i < spans.len() ==> {
            &&& (#[trigger] spans[i]).0 <= spans[i].1
            &&& spans[i].1 <= bytes.len()
            &&& is_char_boundary(bytes, spans[i].0 as int)
            &&& is_char_boundary(bytes, spans[i].1 as int)
        }
    &&& forall|i: int, j: int| 0 <= i < j < spans.len() ==> spans[i].1 <= spans[j].0
}

/// Compiles `pattern` with `regex::Regex::new` and calls `replace_all`.
/// Claimed: `None` exactly when the pattern does not compile; otherwise the
/// replaced text, a function of the pattern, haystack and template alone.
#[verifier::external_body]
pub(crate) fn regex_replace_all(pattern: &str, haystack: &str, rep: &str) -> (res: Option<String>)
    ensures
        res is Some <==> pattern_compiles(pattern@),
        res matches Some(s) ==> s@ == replace_all_result(pattern@, haystack@, rep@),
{
    regex::Regex::new(pattern).ok().map(|re| re.replace_all(haystack, rep).into_owned())
}

/// Compiles `pattern` with `regex::Regex::new` and calls `replace` (first
/// match only). Claimed: `None` exactly when the pattern does not compile;
/// otherwise the replaced text, a function of the pattern, haystack and
/// template alone.
#[verifier::external_body]
pub(crate) fn regex_replace_first(pattern: &str, haystack: &str, rep: &str) -> (res: Option<String>)
    ensures
        res is Some <==> pattern_compiles(pattern@),
        res matches Some(s) ==> s@ == replace_first_result(pattern@, haystack@, rep@),
{
    regex::Regex::new(pattern).ok().map(|re| re.replace(haystack, rep).into_owned())
}

/// Compiles `pattern` with `regex::Regex::new` and collects the byte spans
/// of the matches that `find_iter` yields. Claimed: `None` exactly when the
/// pattern does not compile; otherwise the spans, which the crate documents
/// as successive, non-overlapping, `start <= end`, inside the haystack and
/// on UTF-8 code point boundaries.
#[verifier::external_body]
pub(crate) fn regex_find_spans(pattern: &str, haystack: &str) -> (res: Option<Vec<(usize, usize)>>)
    ensures
        res is Some <==> pattern_compiles(pattern@),
        res matches Some(v) ==> v@ == match_spans(pattern@, haystack@),
        res matches Some(v) ==> spans_well_formed(v@, haystack@),
{
    regex::Regex::new(pattern).ok().map(
        |re| re.find_iter(haystack).map(|m| (m.start(), m.end())).collect(),
    )
}

/// Compiles `pattern` with `regex::Regex::new` and reads capture group
/// `group` of the first match that `captures` finds. Claimed: `None`
/// exactly when the pattern does not compile; otherwise the group's text,
/// if there is a match and the group took part in it.
#[verifier::external_body]
pub(crate) fn regex_first_capture(pattern: &str, haystack: &str, group: usize) -> (res: Option<
    Option<String>,
>)
    ensures
        res is Some <==> pattern_compiles(pattern@),
        res matches Some(c) ==> (c matches Some(s) ==> first_capture(
            pattern@,
            haystack@,
            group,
        ) == Some(s@)),
        res matches Some(c) ==> (c is None ==> first_capture(pattern@, haystack@, group) is None),
{
    regex::Regex::new(pattern).ok().map(
        |re| re.captures(haystack).and_then(|c| c.get(group)).map(|m| m.as_str().to_string()),
    )
}

/// Compiles `pattern` with `regex::Regex::new` and calls `is_match`.
/// Claimed: `None` exactly when the pattern does not compile; otherwise
/// whether the pattern matches somewhere in the haystack.
#[verifier::external_body]
pub(crate) fn regex_is_match(pattern: &str, haystack: &str) -> (res: Option<bool>)
    ensures
        res is Some <==> pattern_compiles(pattern@),
        res matches Some(b) ==> b == is_match_result(pattern@, haystack@),
{
    regex::Regex::new(pattern).ok().map(|re| re.is_match(haystack))
}

/// Calls `regex::escape`. Claimed: the result is a function of `text`
/// alone (the text with regex meta characters escaped).
#[verifier::external_body]
pub(crate) fn regex_escape(text: &str) -> (res: String)
    ensures
        res@ == escape_result(text@),
{
    regex::escape(text)
}

/// Compiles `pattern` with `fancy_regex::Regex::new` and calls
/// `try_replacen` with no limit. Claimed: `None` when the pattern does not
/// compile; `Some(None)` when matching fails at run time; otherwise the
/// replaced text. All of it is a function of the pattern, haystack and
/// template alone.
#[verifier::external_body]
pub(crate) fn fancy_replace_all(pattern: &str, haystack: &str, rep: &str) -> (res: Option<
    Option<String>,
>)
    ensures
        res is Some <==> fancy_pattern_compiles(pattern@),
        res matches Some(r) ==> (r is Some <==> fancy_replace_all_result(
            pattern@,
            haystack@,
            rep@,
        ) is Some),
        res matches Some(r) ==> (r matches Some(s) ==> fancy_replace_all_result(
            pattern@,
            haystack@,
            rep@,
        ) == Some(s@)),
{
    fancy_regex::Regex::new(pattern).ok().map(
        |re| re.try_replacen(haystack, 0, rep).ok().map(|c| c.into_owned()),
    )
}

/// The message that a failing regular-expression step reports.
pub const REGEX_ERROR: &'static str = "regular expression error";

/// What a fallible text step returns, seen as an optional text.
pub open spec fn outcome(res: Result<String, String>) -> Option<Seq<char>> {
    match res {
        Ok(s) => Some(s@),
        Err(_) => None,
    }
}

/// `res` is the text that `expected` names, or the regular-expression error
/// exactly when `expected` is `None`.
pub open spec fn yields(res: Result<String, String>, expected: Option<Seq<char>>) -> bool {
    &&& outcome(res) == expected
    &&& res matches Err(e) ==> e@ == REGEX_ERROR@
}

/// One `replace_all` step applied to an optional text.
pub open spec fn all_step(t: Option<Seq<char>>, pattern: Seq<char>, rep: Seq<char>) -> Option<
    Seq<char>,
> {
    match t {
        Some(s) => if pattern_compiles(pattern) {
            Some(replace_all_result(pattern, s, rep))
        } else {
            None
        },
        None => None,
    }
}

/// One `replace` (first match) step applied to an optional text.
pub open spec fn first_step(t: Option<Seq<char>>, pattern: Seq<char>, rep: Seq<char>) -> Option<
    Seq<char>,
> {
    match t {
        Some(s) => if pattern_compiles(pattern) {
            Some(replace_first_result(pattern, s, rep))
        } else {
            None
        },
        None => None,
    }
}

/// One `fancy_regex` replace-all step applied to an optional text.
pub open spec fn fancy_step(t: Option<Seq<char>>, pattern: Seq<char>, rep: Seq<char>) -> Option<
    Seq<char>,
> {
    match t {
        Some(s) => if fancy_pattern_compiles(pattern) {
            fancy_replace_all_result(pattern, s, rep)
        } else {
            None
        },
        None => None,
    }
}

/// The regular-expression error as an owned string.
pub fn regex_error() -> (res: String)
    ensures
        res@ == REGEX_ERROR@,
{
    crate::text::to_owned_string(REGEX_ERROR)
}

/// Replaces every match of `pattern` in `haystack`, or reports the
/// regular-expression error when the pattern does not compile.
pub fn replace_all(pattern: &str, haystack: &str, rep: &str) -> (res: Result<String, String>)
    ensures
        yields(res, all_step(Some(haystack@), pattern@, rep@)),
{
    match regex_replace_all(pattern, haystack, rep) {
        Some(s) => Ok(s),
        None => Err(regex_error()),
    }
}

/// Replaces the first match of `pattern` in `haystack`, or reports the
/// regular-expression error when the pattern does not compile.
pub fn replace_first(pattern: &str, haystack: &str, rep: &str) -> (res: Result<String, String>)
    ensures
        yields(res, first_step(Some(haystack@), pattern@, rep@)),
{
    match regex_replace_first(pattern, haystack, rep) {
        Some(s) => Ok(s),
        None => Err(regex_error()),
    }
}

/// Replaces every match of the `fancy_regex` `pattern` in `haystack`, or
/// reports the regular-expression error when the pattern does not compile
/// or matching fails.
pub fn fancy_replace(pattern: &str, haystack: &str, rep: &str) -> (res: Result<String, String>)
    ensures
        yields(res, fancy_step(Some(haystack@), pattern@, rep@)),
{
    match fancy_replace_all(pattern, haystack, rep) {
        Some(Some(s)) => Ok(s),
        _ => Err(regex_error()),
    }
}

/// Continues an optional text with `f`, or stays `None`.
pub open spec fn then(o: Option<Seq<char>>, f: spec_fn(Seq<char>) -> Option<Seq<char>>) -> Option<
    Seq<char>,
> {
    match o {
        Some(s) => f(s),
        None => None,
    }
}

pub use crate::text::views;

/// `replace_all` with each pattern in turn, all with template `rep`.
pub open spec fn all_fold(t: Option<Seq<char>>, pats: Seq<Seq<char>>, rep: Seq<char>) -> Option<
    Seq<char>,
>
    decreases pats.len(),
{
    if pats.len() == 0 {
        t
    } else {
        all_fold(all_step(t, pats[0], rep), pats.drop_first(), rep)
    }
}

/// `replace` (first match) with each pattern in turn, all with template `rep`.
pub open spec fn first_fold(t: Option<Seq<char>>, pats: Seq<Seq<char>>, rep: Seq<char>) -> Option<
    Seq<char>,
>
    decreases pats.len(),
{
    if pats.len() == 0 {
        t
    } else {
        first_fold(first_step(t, pats[0], rep), pats.drop_first(), rep)
    }
}

/// `replace_all` with each (pattern, template) pair in turn.
pub open spec fn pair_fold(t: Option<Seq<char>>, pairs: Seq<(Seq<char>, Seq<char>)>) -> Option<
    Seq<char>,
>
    decreases pairs.len(),
{
    if pairs.len() == 0 {
        t
    } else {
        pair_fold(all_step(t, pairs[0].0, pairs[0].1), pairs.drop_first())
    }
}

/// The character views of a list of (pattern, template) pairs.
pub open spec fn pair_views(ps: Seq<(&str, &str)>) -> Seq<(Seq<char>, Seq<char>)> {
    ps.map_values(|p: (&str, &str)| (p.0@, p.1@))
}

proof fn lemma_all_fold_none(pats: Seq<Seq<char>>, rep: Seq<char>)
    ensures
        all_fold(None, pats, rep) is None,
    decreases pats.len(),
{
    if pats.len() > 0 {
        lemma_all_fold_none(pats.drop_first(), rep);
    }
}

proof fn lemma_first_fold_none(pats: Seq<Seq<char>>, rep: Seq<char>)
    ensures
        first_fold(None, pats, rep) is None,
    decreases pats.len(),
{
    if pats.len() > 0 {
        lemma_first_fold_none(pats.drop_first(), rep);
    }
}

proof fn lemma_pair_fold_none(pairs: Seq<(Seq<char>, Seq<char>)>)
    ensures
        pair_fold(None, pairs) is None,
    decreases pairs.len(),
{
    if pairs.len() > 0 {
        lemma_pair_fold_none(pairs.drop_first());
    }
}

/// Applies `replace_all` with each pattern of `pats` in order.
pub fn replace_all_each(pats: &[&str], text: &str, rep: &str) -> (res: Result<String, String>)
    ensures
        yields(res, all_fold(Some(text@), views(pats@), rep@)),
{
    let ghost all = views(pats@);
    let mut cur = crate::text::to_owned_string(text);
    let mut i: usize = 0;
    assert(all.skip(0) =~= all);
    while i < pats.len()
        invariant
            0 <= i <= pats@.len(),
            all == views(pats@),
            all_fold(Some(text@), all, rep@) == all_fold(Some(cur@), all.skip(i as int), rep@),
        decreases pats@.len() - i,
    {
        assert(all.skip(i as int).drop_first() =~= all.skip(i + 1));
        assert(all.skip(i as int)[0] == pats@[i as int]@);
        match replace_all(pats[i], cur.as_str(), rep) {
            Ok(s) => {
                cur = s;
            },
            Err(e) => {
                proof {
                    lemma_all_fold_none(all.skip(i + 1), rep@);
                }
                return Err(e);
            },
        }
        i = i + 1;
    }
    assert(all.skip(i as int) =~= Seq::<Seq<char>>::empty());
    Ok(cur)
}

/// Applies `replace` (first match) with each pattern of `pats` in order.
pub fn replace_first_each(pats: &[&str], text: &str, rep: &str) -> (res: Result<String, String>)
    ensures
        yields(res, first_fold(Some(text@), views(pats@), rep@)),
{
    let ghost all = views(pats@);
    let mut cur = crate::text::to_owned_string(text);
    let mut i: usize = 0;
    assert(all.skip(0) =~= all);
    while i < pats.len()
        invariant
            0 <= i <= pats@.len(),
            all == views(pats@),
            first_fold(Some(text@), all, rep@) == first_fold(
                Some(cur@),
                all.skip(i as int),
                rep@,
            ),
        decreases pats@.len() - i,
    {
        assert(all.skip(i as int).drop_first() =~= all.skip(i + 1));
        assert(all.skip(i as int)[0] == pats@[i as int]@);
        match replace_first(pats[i], cur.as_str(), rep) {
            Ok(s) => {
                cur = s;
            },
            Err(e) => {
                proof {
                    lemma_first_fold_none(all.skip(i + 1), rep@);
                }
                return Err(e);
            },
        }
        i = i + 1;
    }
    assert(all.skip(i as int) =~= Seq::<Seq<char>>::empty());
    Ok(cur)
}

/// Applies `replace_all` with each (pattern, template) pair in order.
pub fn replace_all_pairs(pairs: &[(&str, &str)], text: &str) -> (res: Result<String, String>)
    ensures
        yields(res, pair_fold(Some(text@), pair_views(pairs@))),
{
    let ghost all = pair_views(pairs@);
    let mut cur = crate::text::to_owned_string(text);
    let mut i: usize = 0;
    assert(all.skip(0) =~= all);
    while i < pairs.len()
        invariant
            0 <= i <= pairs@.len(),
            all == pair_views(pairs@),
            pair_fold(Some(text@), all) == pair_fold(Some(cur@), all.skip(i as int)),
        decreases pairs@.len() - i,
    {
        assert(all.skip(i as int).drop_first() =~= all.skip(i + 1));
        let (p, r) = pairs[i];
        assert(all.skip(i as int)[0] == (p@, r@));
        match replace_all(p, cur.as_str(), r) {
            Ok(s) => {
                cur = s;
            },
            Err(e) => {
                proof {
                    lemma_pair_fold_none(all.skip(i + 1));
                }
                return Err(e);
            },
        }
        i = i + 1;
    }
    assert(all.skip(i as int) =~= Seq::<(Seq<char>, Seq<char>)>::empty());
    Ok(cur)
}

} // verus!
