//! A fluent, chainable assertion and lightweight test-runner library.
//!
//! Checks (equality, ordering, containment, pattern matching, ...) are fed
//! to a mutable accumulator; a report summarizing passes and failures is
//! rendered once the run ends. Two accumulator variants exist: a strict one
//! that stops the run at the first failing check, and a permissive one that
//! records every outcome and defers the verdict to the end of the run.

pub mod assertions;
pub mod check;
pub mod clock;
pub mod compare;
pub mod errors;
pub mod output;
pub mod paths;
pub mod pattern;
pub mod records;
pub mod report;
pub mod suite;
pub mod text;
pub mod unit;

pub use assertions::Assert;
pub use errors::{CheckError, ImmediateFailure, SetupError};
pub use records::CheckRecord;
pub use report::Report;
pub use suite::Suite;
pub use unit::Unit;
