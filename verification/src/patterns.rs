//! Regular-expression matching, done by the `regex` crate.

use vstd::prelude::*;
use crate::text;

verus! {

/// What `regex::Regex::new(pattern)` and then `find_iter(haystack)` give:
/// `None` where the pattern does not compile, else the text of each
/// successive non-overlapping match.
pub uninterp spec fn regex_find_all(pattern: Seq<char>, haystack: Seq<char>) -> Option<
    Seq<Seq<char>>,
>;

/// What `regex::Regex::new(pattern)` and then
/// `replace_all(haystack, replacement)` give: `None` where the pattern does
/// not compile, else the haystack with every non-overlapping match replaced.
pub uninterp spec fn regex_replace_all(
    pattern: Seq<char>,
    haystack: Seq<char>,
    replacement: Seq<char>,
) -> Option<Seq<char>>;

/// Compiles `pattern` with `regex::Regex::new` and collects the text of the
/// matches of `Regex::find_iter` on `haystack`. Trusted: the result is
/// `regex_find_all` of the two arguments; what the regex matches is not
/// stated beyond that name.
#[verifier::external_body]
pub fn find_all_matches(pattern: &str, haystack: &str) -> (r: Option<Vec<String>>)
    ensures
        r is Some <==> regex_find_all(pattern@, haystack@) is Some,
        r matches Some(v) ==> text::string_views(v@) == regex_find_all(
            pattern@,
            haystack@,
        )->0,
{
    match regex::Regex::new(pattern) {
        Ok(re) => Some(re.find_iter(haystack).map(|m| m.as_str().to_string()).collect()),
        Err(_) => None,
    }
}

/// Compiles `pattern` with `regex::Regex::new` and applies
/// `Regex::replace_all(haystack, replacement)`. Trusted: the result is
/// `regex_replace_all` of the three arguments; what the regex matches is not
/// stated beyond that name.
#[verifier::external_body]
pub fn replace_all_matches(pattern: &str, haystack: &str, replacement: &str) -> (r: Option<
    String,
>)
    ensures
        r is Some <==> regex_replace_all(pattern@, haystack@, replacement@) is Some,
        r matches Some(s) ==> s@ == regex_replace_all(pattern@, haystack@, replacement@)->0,
{
    match regex::Regex::new(pattern) {
        Ok(re) => Some(re.replace_all(haystack, replacement).into_owned()),
        Err(_) => None,
    }
}

} // verus!
