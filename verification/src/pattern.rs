//! Matching one line of tool output against a regular expression.
//!
//! The `regex` crate does the matching. What it finds is not restated
//! here: it is given a name, and the rules that read the captured fields are
//! proved for whatever the crate finds.

use regex::Regex;
use vstd::prelude::*;

verus! {

/// Names what the `regex` crate finds when `pattern` is searched for in
/// `haystack`: `None` where the pattern does not compile or matches nowhere;
/// otherwise, for the leftmost match and for each of `names` in turn, the
/// text that the capture group of that name matched, or `None` where the
/// pattern has no such group or the group took no part in the match.
pub uninterp spec fn regex_captures(
    pattern: Seq<char>,
    haystack: Seq<char>,
    names: Seq<Seq<char>>,
) -> Option<Seq<Option<Seq<char>>>>;

/// `Regex::captures`, on the pattern as `Regex::new` compiles it, with the
/// groups read out by `Captures::name`: searches `haystack` for the leftmost
/// match of `pattern` and hands out the text of the named groups, one entry
/// for each of `names`. The pattern is compiled on every call, so that the
/// result depends on the three arguments alone.
#[verifier::external_body]
pub(crate) fn captures(pattern: &str, haystack: &Vec<char>, names: &Vec<&str>) -> (r: Option<
    Vec<Option<String>>,
>)
    ensures
        r.deep_view() == regex_captures(pattern@, haystack@, names.deep_view()),
        r matches Some(groups) ==> groups.len() == names.len(),
{
    let text = String::from_iter(haystack.iter());
    let compiled = Regex::new(pattern).ok()?;
    let found = compiled.captures(&text)?;
    Some(names.iter().map(|n| found.name(n).map(|m| m.as_str().to_string())).collect())
}

} // verus!
