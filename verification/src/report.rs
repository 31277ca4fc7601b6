//! The end-of-run report: a pure rendering of a consumed record set.
//!
//! The report is data, not output: one line per record in original order,
//! plus the summary totals. Printing it, with colors, a progress bar or a
//! pacing delay between lines, is left to the program around the library.

use vstd::prelude::*;

use crate::records::{count_failed, count_passed, CheckRecord, RecordView};

verus! {

/// Mathematical model of a rendered report.
pub ghost struct ReportView {
    pub title: Seq<char>,
    pub description: Seq<char>,
    pub lines: Seq<RecordView>,
    pub successes: nat,
    pub failures: nat,
    pub pace_millis: nat,
}

/// What rendering a record set produces: one line per record, in order, and
/// the two summary totals. A pure function of its inputs.
pub open spec fn report_of(
    title: Seq<char>,
    description: Seq<char>,
    records: Seq<RecordView>,
    pace_millis: nat,
) -> ReportView {
    ReportView {
        title,
        description,
        lines: records,
        successes: count_passed(records),
        failures: count_failed(records),
        pace_millis,
    }
}

/// The rendered report of a completed run.
pub struct Report {
    pub title: String,
    pub description: String,
    pub lines: Vec<CheckRecord>,
    pub successes: usize,
    pub failures: usize,
    pub pace_millis: u64,
}

impl View for Report {
    type V = ReportView;

    open spec fn view(&self) -> ReportView {
        ReportView {
            title: self.title@,
            description: self.description@,
            lines: self.lines.deep_view(),
            successes: self.successes as nat,
            failures: self.failures as nat,
            pace_millis: self.pace_millis as nat,
        }
    }
}

impl Report {
    /// Whether every recorded check succeeded.
    pub fn passed(&self) -> (r: bool)
        ensures
            r == (self@.failures == 0),
    {
        self.failures == 0
    }

    /// How many lines the report holds: one per recorded check.
    pub fn total(&self) -> (r: usize)
        ensures
            r as nat == self@.lines.len(),
    {
        self.lines.len()
    }
}

/// Rendering is idempotent: two renderings of the same consumed record set
/// have the same line count and the same summary totals.
pub proof fn lemma_rendering_idempotent(
    title: Seq<char>,
    description: Seq<char>,
    records: Seq<RecordView>,
    pace_millis: nat,
    first: ReportView,
    second: ReportView,
)
    requires
        first == report_of(title, description, records, pace_millis),
        second == report_of(title, description, records, pace_millis),
    ensures
        first.lines.len() == second.lines.len(),
        first.successes == second.successes,
        first.failures == second.failures,
{
}

} // verus!
