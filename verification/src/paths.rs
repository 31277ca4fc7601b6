//! Path checks whose outcome depends on the state of the filesystem.
//!
//! Nothing can be promised of these results: what is on disk can change
//! between two calls. The accumulators record whatever came back.

use is_executable::IsExecutable;
use vstd::prelude::*;

verus! {

/// Relies on std::path::Path::exists: whether the path points to an
/// existing entity right now; the result depends on the filesystem.
#[verifier::external_body]
pub(crate) fn path_exists(p: &str) -> bool {
    std::path::Path::new(p).exists()
}

/// Relies on is_executable::IsExecutable::is_executable: whether the path
/// points to an executable file right now; the result depends on the
/// filesystem.
#[verifier::external_body]
pub(crate) fn path_is_executable(p: &str) -> bool {
    std::path::Path::new(p).is_executable()
}

} // verus!
