//! The boundary to the `regex` crate.
//!
//! Nothing in this module is proved. What a regular expression matches is
//! decided by the engine alone; the library gives those results names and
//! states every contract of the content pipeline over them.
//!
//! Every function here goes from texts to texts. A compiled expression is
//! not kept between calls: it would be a value of which no contract could
//! say from which pattern it was made. The price is that each call compiles
//! its pattern anew.

use regex::Regex;
use vstd::prelude::*;

verus! {

/// Whether `Regex::new` accepts `pattern`, that is, returns `Ok` for it.
pub uninterp spec fn engine_accepts(pattern: Seq<char>) -> bool;

/// What `Regex::replace_all` returns for the regular expression compiled
/// from `pattern`, the given haystack and the given replacement text.
pub uninterp spec fn engine_replaced(
    pattern: Seq<char>,
    haystack: Seq<char>,
    replacement: Seq<char>,
) -> Seq<char>;

/// What `Regex::captures_iter` yields for the regular expression compiled
/// from `pattern` on `haystack`, reduced to the first capture group: one
/// entry per match, in the order of the matches, holding the text of the
/// group, or `None` where the group took no part in the match.
pub uninterp spec fn engine_first_groups(pattern: Seq<char>, haystack: Seq<char>) -> Seq<
    Option<Seq<char>>,
>;

/// Calls `Regex::new` and reports whether it returned `Ok`. The contract
/// only names that answer: the same pattern is always answered alike.
#[verifier::external_body]
pub(crate) fn accepts(pattern: &str) -> (accepted: bool)
    ensures
        accepted == engine_accepts(pattern@),
{
    Regex::new(pattern).is_ok()
}

/// Compiles `pattern` with `Regex::new` and calls `Regex::replace_all` with
/// `replacement` as a `&str` replacer. The contract only names the text that
/// comes back; it claims no more than that equal arguments give equal text.
/// The pattern must be one that the engine accepts.
#[verifier::external_body]
pub(crate) fn replace_all(pattern: &str, haystack: &str, replacement: &str) -> (result: String)
    requires
        engine_accepts(pattern@),
    ensures
        result@ == engine_replaced(pattern@, haystack@, replacement@),
{
    Regex::new(pattern).unwrap().replace_all(haystack, replacement).into_owned()
}

/// Compiles `pattern` with `Regex::new`, walks `Regex::captures_iter` over
/// `haystack` and takes `Captures::get(1)` of every match as an owned
/// string. The contract only names that list. The pattern must be one that
/// the engine accepts.
#[verifier::external_body]
pub(crate) fn first_groups(pattern: &str, haystack: &str) -> (groups: Vec<Option<String>>)
    requires
        engine_accepts(pattern@),
    ensures
        groups.deep_view() == engine_first_groups(pattern@, haystack@),
{
    Regex::new(pattern)
        .unwrap()
        .captures_iter(haystack)
        .map(|found| found.get(1).map(|group| group.as_str().to_string()))
        .collect()
}

} // verus!
