//! Regular-expression matching on lines of text.
//!
//! Patterns are compiled and run by the `regex` crate. What the crate returns
//! for a pattern and a haystack is not modelled here: it is given a name, and
//! the contracts of this module speak of that name. A pattern is compiled
//! once for all the lines it is tried on.
use regex::Regex;
use vstd::prelude::*;

verus! {

/// `regex::Error`, the error of `regex::Regex::new`. It is carried from the
/// call to the place that drops it and never looked into.
#[verifier::external_type_specification]
#[verifier::external_body]
pub struct ExPatternError(regex::Error);

/// Whether `regex::Regex::new` accepts `pattern`.
pub uninterp spec fn pattern_compiles(pattern: Seq<char>) -> bool;

/// Whether `regex::Regex::is_match` finds a match of `pattern` anywhere in
/// `haystack`. Meaningful only where `pattern_compiles(pattern)`.
pub uninterp spec fn pattern_found(pattern: Seq<char>, haystack: Seq<char>) -> bool;

/// The text that `regex::Captures::get` gives for capture group `index` of
/// what `regex::Regex::captures` returns for `pattern` on `haystack`: `None`
/// without a match; `Some(None)` where the first match has no such group or
/// the group took no part in it; the text of the group otherwise.
/// Meaningful only where `pattern_compiles(pattern)`.
pub uninterp spec fn pattern_group(pattern: Seq<char>, haystack: Seq<char>, index: int) -> Option<
    Option<Seq<char>>,
>;

/// Whether `pattern` is a valid expression that matches somewhere in
/// `haystack`. A pattern that does not compile matches nothing.
pub open spec fn found_in(pattern: Seq<char>, haystack: Seq<char>) -> bool {
    pattern_compiles(pattern) && pattern_found(pattern, haystack)
}

/// The text captured by group `index` of the first match of `pattern` in
/// `haystack`: `None` when the pattern does not compile or does not match,
/// the empty text when the group is absent from the match.
pub open spec fn group_in(pattern: Seq<char>, haystack: Seq<char>, index: int) -> Option<
    Seq<char>,
> {
    if !pattern_compiles(pattern) {
        None
    } else {
        match pattern_group(pattern, haystack, index) {
            None => None,
            Some(None) => Some(Seq::empty()),
            Some(Some(text)) => Some(text),
        }
    }
}

/// Whether `found` tells of every haystack, at its place, whether `pattern`
/// matches in it.
pub open spec fn found_in_each(
    found: Seq<bool>,
    pattern: Seq<char>,
    haystacks: Seq<Seq<char>>,
) -> bool {
    &&& found.len() == haystacks.len()
    &&& forall|i: int| 0 <= i < found.len() ==> #[trigger] found[i] == found_in(pattern, haystacks[i])
}

/// Whether `groups` holds for every haystack, at its place, the text that
/// group `index` of `pattern` captures in it.
pub open spec fn group_in_each(
    groups: Seq<Option<Seq<char>>>,
    pattern: Seq<char>,
    haystacks: Seq<Seq<char>>,
    index: int,
) -> bool {
    &&& groups.len() == haystacks.len()
    &&& forall|i: int|
        0 <= i < groups.len() ==> #[trigger] groups[i] == group_in(pattern, haystacks[i], index)
}

/// Calls `regex::Regex::new` on `pattern` and, on the result,
/// `regex::Regex::is_match` for every haystack in turn. The error is the
/// compiler's; each boolean is what `is_match` returned for the haystack at
/// its place, which depends on the pattern and that haystack alone.
#[verifier::external_body]
fn is_match(pattern: &str, haystacks: &Vec<String>) -> (r: Result<Vec<bool>, regex::Error>)
    ensures
        r.is_ok() == pattern_compiles(pattern@),
        r matches Ok(found) ==> found.len() == haystacks.len() && forall|i: int|
            0 <= i < found.len() ==> #[trigger] found[i] == pattern_found(
                pattern@,
                haystacks[i]@,
            ),
{
    match Regex::new(pattern) {
        Ok(re) => Ok(haystacks.iter().map(|haystack| re.is_match(haystack)).collect()),
        Err(e) => Err(e),
    }
}

/// Calls `regex::Regex::new` on `pattern` and, on the result, for every
/// haystack in turn, `regex::Regex::captures` and `regex::Captures::get` on
/// the match, and copies out the text of the group
/// (`regex::Match::as_str`). The error is the compiler's; each text is what
/// came back for the haystack at its place, which depends on the pattern,
/// that haystack and the index alone.
#[verifier::external_body]
fn captures(pattern: &str, haystacks: &Vec<String>, index: usize) -> (r: Result<
    Vec<Option<Option<String>>>,
    regex::Error,
>)
    ensures
        r.is_ok() == pattern_compiles(pattern@),
        r matches Ok(texts) ==> texts.len() == haystacks.len() && forall|i: int|
            0 <= i < texts.len() ==> (#[trigger] texts[i]).deep_view() == pattern_group(
                pattern@,
                haystacks[i]@,
                index as int,
            ),
{
    match Regex::new(pattern) {
        Ok(re) => Ok(
            haystacks.iter().map(
                |haystack|
                    re.captures(haystack).map(
                        |found| found.get(index).map(|m| m.as_str().to_string()),
                    ),
            ).collect(),
        ),
        Err(e) => Err(e),
    }
}

/// Tells of every haystack whether `pattern` matches somewhere in it.
pub fn found_each(pattern: &str, haystacks: &Vec<String>) -> (r: Vec<bool>)
    ensures
        found_in_each(r@, pattern@, haystacks.deep_view()),
{
    match is_match(pattern, haystacks) {
        Ok(found) => found,
        Err(_) => {
            let mut none: Vec<bool> = Vec::new();
            while none.len() < haystacks.len()
                invariant
                    none.len() <= haystacks.len(),
                    forall|i: int| 0 <= i < none.len() ==> !#[trigger] none[i],
                decreases haystacks.len() - none.len(),
            {
                none.push(false);
            }
            none
        },
    }
}

/// Extracts from every haystack the text of capture group `index` of the
/// first match of `pattern` in it.
pub fn group_each(pattern: &str, haystacks: &Vec<String>, index: usize) -> (r: Vec<Option<String>>)
    ensures
        group_in_each(r.deep_view(), pattern@, haystacks.deep_view(), index as int),
{
    let mut groups: Vec<Option<String>> = Vec::new();
    match captures(pattern, haystacks, index) {
        Ok(texts) => {
            let mut texts = texts;
            let mut i: usize = 0;
            while i < texts.len()
                invariant
                    i <= texts.len(),
                    groups.len() == i,
                    texts.len() == haystacks.len(),
                    pattern_compiles(pattern@),
                    forall|j: int|
                        i <= j < texts.len() ==> (#[trigger] texts[j]).deep_view()
                            == pattern_group(pattern@, haystacks[j]@, index as int),
                    forall|j: int|
                        0 <= j < i ==> (#[trigger] groups[j]).deep_view() == group_in(
                            pattern@,
                            haystacks[j]@,
                            index as int,
                        ),
                decreases texts.len() - i,
            {
                let text = match &texts[i] {
                    None => None,
                    Some(None) => Some(String::new()),
                    Some(Some(text)) => Some(text.clone()),
                };
                groups.push(text);
                i += 1;
            }
        },
        Err(_) => {
            while groups.len() < haystacks.len()
                invariant
                    groups.len() <= haystacks.len(),
                    !pattern_compiles(pattern@),
                    forall|j: int| 0 <= j < groups.len() ==> (#[trigger] groups[j]) is None,
                decreases haystacks.len() - groups.len(),
            {
                groups.push(None);
            }
        },
    }
    groups
}

} // verus!
