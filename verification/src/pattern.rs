//! Regular-expression matching, done by the `regex` crate.
use vstd::prelude::*;

verus! {

/// What `Regex::new(pattern)` then `captures(text)` finds: `None` when the
/// pattern does not compile or does not match; otherwise the text of the
/// named group, `None` when the group took no part in the match.
pub uninterp spec fn regex_group(pattern: Seq<char>, group: Seq<char>, text: Seq<char>) -> Option<
    Option<Seq<char>>,
>;

/// What `Regex::new(pattern)` then `find(text)` finds: the text of the
/// leftmost-first match, `None` when the pattern does not compile or does
/// not match.
pub uninterp spec fn regex_first(pattern: Seq<char>, text: Seq<char>) -> Option<Seq<char>>;

/// The text of an optional optional string.
pub open spec fn group_text(r: Option<Option<String>>) -> Option<Option<Seq<char>>> {
    match r {
        Some(Some(s)) => Some(Some(s@)),
        Some(None) => Some(None),
        None => None,
    }
}

/// `Regex::new(pattern)` and `captures(text)`, reduced to the named group.
#[verifier::external_body]
pub(crate) fn capture_group(pattern: &str, group: &str, text: &str) -> (r: Option<Option<String>>)
    ensures
        group_text(r) == regex_group(pattern@, group@, text@),
{
    let re = regex::Regex::new(pattern).ok()?;
    let caps = re.captures(text)?;
    Some(caps.name(group).map(|m| m.as_str().to_string()))
}

/// `Regex::new(pattern)` and `find(text)`, reduced to the matched text.
#[verifier::external_body]
pub(crate) fn first_match(pattern: &str, text: &str) -> (r: Option<String>)
    ensures
        match r {
            Some(s) => regex_first(pattern@, text@) == Some(s@),
            None => regex_first(pattern@, text@) is None,
        },
{
    let re = regex::Regex::new(pattern).ok()?;
    re.find(text).map(|m| m.as_str().to_string())
}

} // verus!
