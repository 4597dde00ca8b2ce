//! Regular expressions, matched by the `regex` crate.
//!
//! What the crate answers is not proved here. Each answer has a name, a
//! function of the pattern and the text alone, and the contracts of the
//! library speak of those names.
use vstd::prelude::*;
use crate::words::views;

verus! {

/// Whether the regular expression `pattern` matches somewhere in `haystack`,
/// as `regex::Regex::is_match` answers; `None` where `regex::Regex::new`
/// refuses `pattern`.
pub uninterp spec fn regex_is_match(pattern: Seq<char>, haystack: Seq<char>) -> Option<bool>;

/// The parts of `haystack` between the matches of the regular expression
/// `pattern`, as `regex::Regex::split` yields them; `None` where
/// `regex::Regex::new` refuses `pattern`.
pub uninterp spec fn regex_split(pattern: Seq<char>, haystack: Seq<char>) -> Option<
    Seq<Seq<char>>,
>;

/// Compiles `pattern` with `regex::Regex::new` and asks `Regex::is_match`
/// whether it matches in `haystack`. The contract claims only that the answer
/// depends on the two texts alone.
#[verifier::external_body]
pub(crate) fn is_match(pattern: &str, haystack: &str) -> (r: Option<bool>)
    ensures
        r == regex_is_match(pattern@, haystack@),
{
    match regex::Regex::new(pattern) {
        Ok(re) => Some(re.is_match(haystack)),
        Err(_) => None,
    }
}

/// Compiles `pattern` with `regex::Regex::new` and collects what
/// `Regex::split` yields for `haystack`, each part as a string. The contract
/// claims only that the parts depend on the two texts alone.
#[verifier::external_body]
pub(crate) fn split(pattern: &str, haystack: &str) -> (r: Option<Vec<String>>)
    ensures
        match r {
            Some(parts) => regex_split(pattern@, haystack@) == Some(views(parts@)),
            None => regex_split(pattern@, haystack@) is None,
        },
{
    match regex::Regex::new(pattern) {
        Ok(re) => Some(re.split(haystack).map(String::from).collect()),
        Err(_) => None,
    }
}

} // verus!
