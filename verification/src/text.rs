//! Substring, prefix and suffix tests on strings, with exact models.

use vstd::prelude::*;

verus! {

/// The needle occurs somewhere inside the haystack.
pub open spec fn spec_contains(hay: Seq<char>, needle: Seq<char>) -> bool {
    exists|i: int|
        0 <= i && i + needle.len() <= hay.len() && #[trigger] hay.subrange(
            i,
            i + needle.len(),
        ) == needle
}

/// The haystack begins with the prefix.
pub open spec fn spec_starts_with(hay: Seq<char>, prefix: Seq<char>) -> bool {
    prefix.len() <= hay.len() && hay.subrange(0, prefix.len() as int) == prefix
}

/// The haystack ends with the suffix.
pub open spec fn spec_ends_with(hay: Seq<char>, suffix: Seq<char>) -> bool {
    suffix.len() <= hay.len() && hay.subrange(
        hay.len() - suffix.len(),
        hay.len() as int,
    ) == suffix
}

/// Relies on str::contains: true exactly when the needle matches a
/// sub-slice of the haystack.
#[verifier::external_body]
pub(crate) fn str_has(hay: &str, needle: &str) -> (r: bool)
    ensures
        r == spec_contains(hay@, needle@),
{
    hay.contains(needle)
}

/// Relies on str::starts_with: true exactly when the haystack begins with
/// the prefix.
#[verifier::external_body]
pub(crate) fn str_starts(hay: &str, prefix: &str) -> (r: bool)
    ensures
        r == spec_starts_with(hay@, prefix@),
{
    hay.starts_with(prefix)
}

/// Relies on str::ends_with: true exactly when the haystack ends with the
/// suffix.
#[verifier::external_body]
pub(crate) fn str_ends(hay: &str, suffix: &str) -> (r: bool)
    ensures
        r == spec_ends_with(hay@, suffix@),
{
    hay.ends_with(suffix)
}

} // verus!
