//! Regular-expression searches. The matching itself is the `regex` crate's;
//! what it finds is named here, so that the rules built on it can say which
//! search they rest on.

use regex::Regex;
use vstd::prelude::*;

verus! {

/// What a search of `haystack` for `pattern` captures in group number `group`:
/// one entry for each match, leftmost first and none overlapping another, with
/// the text of the group in that match, or `None` where the group took no part
/// in it or the pattern has no such group. `None` as a whole where `pattern`
/// is not a regular expression that the `regex` crate compiles.
pub uninterp spec fn regex_captures(pattern: Seq<char>, haystack: Seq<char>, group: nat) -> Option<
    Seq<Option<Seq<char>>>,
>;

/// The parts of `haystack` that no match of `pattern` covers, in order: what
/// stands before the first match, between each match and the next, and after
/// the last. `None` where `pattern` is not a regular expression that the
/// `regex` crate compiles.
pub uninterp spec fn regex_pieces(pattern: Seq<char>, haystack: Seq<char>) -> Option<
    Seq<Seq<char>>,
>;

/// Compiles `pattern` with `Regex::new`, walks `Regex::captures_iter` over
/// `haystack` and takes `Captures::get(group)` of each match. Trusted: the
/// result is what `regex_captures` names, and `None` exactly when the pattern
/// does not compile.
#[verifier::external_body]
pub(crate) fn capture_group(pattern: &str, haystack: &str, group: usize) -> (found: Option<
    Vec<Option<String>>,
>)
    ensures
        found.deep_view() == regex_captures(pattern@, haystack@, group as nat),
{
    match Regex::new(pattern) {
        Ok(re) => Some(
            re.captures_iter(haystack).map(|c| c.get(group).map(|m| m.as_str().to_string())).collect(),
        ),
        Err(_) => None,
    }
}

/// Compiles `pattern` with `Regex::new` and collects what `Regex::split`
/// yields on `haystack`. Trusted: the result is what `regex_pieces` names, and
/// `None` exactly when the pattern does not compile.
#[verifier::external_body]
pub(crate) fn split_pieces(pattern: &str, haystack: &str) -> (pieces: Option<Vec<String>>)
    ensures
        pieces.deep_view() == regex_pieces(pattern@, haystack@),
{
    match Regex::new(pattern) {
        Ok(re) => Some(re.split(haystack).map(|piece| piece.to_string()).collect()),
        Err(_) => None,
    }
}

} // verus!
