//! Regular-expression checks, behind named results of the regex crate.
//!
//! The regex crate's results depend on the pattern and the text alone, so
//! they are given names here; the checks' own contracts speak of those names.

use vstd::prelude::*;

verus! {

/// Whether regex::Regex::new accepts the pattern.
pub uninterp spec fn regex_valid(pattern: Seq<char>) -> bool;

/// What regex::Regex::is_match returns for the pattern on the text.
pub uninterp spec fn regex_accepts(pattern: Seq<char>, text: Seq<char>) -> bool;

/// The text of the given capture group of the pattern's first match in the
/// text: what regex::Regex::captures followed by regex::Captures::get and
/// regex::Match::as_str produce, None when the pattern does not match or
/// has no such group.
pub uninterp spec fn regex_group(pattern: Seq<char>, text: Seq<char>, index: int) -> Option<
    Seq<char>,
>;

/// Relies on regex::Regex::new: it succeeds exactly on syntactically valid
/// patterns, and on the pattern alone.
#[verifier::external_body]
pub(crate) fn regex_check(pattern: &str) -> (r: bool)
    ensures
        r == regex_valid(pattern@),
{
    regex::Regex::new(pattern).is_ok()
}

/// Relies on regex::Regex::new, which succeeds exactly on valid patterns,
/// and regex::Regex::is_match, whose result depends on the pattern and the
/// text alone.
#[verifier::external_body]
pub(crate) fn regex_is_match(pattern: &str, text: &str) -> (r: Option<bool>)
    ensures
        r is Some <==> regex_valid(pattern@),
        r is Some ==> r->0 == regex_accepts(pattern@, text@),
{
    match regex::Regex::new(pattern) {
        Ok(re) => Some(re.is_match(text)),
        Err(_) => None,
    }
}

/// Relies on regex::Regex::new, which succeeds exactly on valid patterns,
/// and on regex::Regex::captures, regex::Captures::get and
/// regex::Match::as_str, whose results depend on the pattern, the text and
/// the group index alone.
#[verifier::external_body]
pub(crate) fn regex_capture_group(pattern: &str, text: &str, index: usize) -> (r: Option<
    Option<String>,
>)
    ensures
        r is Some <==> regex_valid(pattern@),
        r is Some ==> (r->0 is Some <==> regex_group(pattern@, text@, index as int) is Some),
        r is Some && r->0 is Some ==> r->0->0@ == regex_group(pattern@, text@, index as int)->0,
{
    match regex::Regex::new(pattern) {
        Ok(re) => match re.captures(text) {
            Some(caps) => match caps.get(index) {
                Some(m) => Some(Some(m.as_str().to_string())),
                None => Some(None),
            },
            None => Some(None),
        },
        Err(_) => None,
    }
}

} // verus!
