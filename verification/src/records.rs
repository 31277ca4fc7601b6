//! The outcome record of a single evaluated check.

use vstd::prelude::*;

verus! {

/// Mathematical model of one evaluated check: its outcome, the message
/// chosen for it at record time, and the time its predicate took.
pub ghost struct RecordView {
    pub ok: bool,
    pub message: Seq<char>,
    pub elapsed_nanos: nat,
}

/// One evaluated check. The message wording was chosen when the check was
/// recorded: the success wording if it passed, the failure wording if not.
#[derive(Debug)]
pub struct CheckRecord {
    ok: bool,
    message: String,
    elapsed_nanos: u128,
}

impl View for CheckRecord {
    type V = RecordView;

    closed spec fn view(&self) -> RecordView {
        RecordView { ok: self.ok, message: self.message@, elapsed_nanos: self.elapsed_nanos as nat }
    }
}

impl DeepView for CheckRecord {
    type V = RecordView;

    open spec fn deep_view(&self) -> RecordView {
        self.view()
    }
}

impl CheckRecord {
    /// Bundle an outcome with its chosen message and measured duration.
    pub fn new(ok: bool, message: String, elapsed_nanos: u128) -> (r: Self)
        ensures
            r@ == (RecordView { ok, message: message@, elapsed_nanos: elapsed_nanos as nat }),
    {
        CheckRecord { ok, message, elapsed_nanos }
    }

    /// Whether the check passed.
    pub fn passed(&self) -> (r: bool)
        ensures
            r == self@.ok,
    {
        self.ok
    }

    /// The message recorded for the check.
    pub fn message(&self) -> (r: &String)
        ensures
            r@ == self@.message,
    {
        &self.message
    }

    /// How long the check's predicate took, in nanoseconds.
    pub fn elapsed_nanos(&self) -> (r: u128)
        ensures
            r as nat == self@.elapsed_nanos,
    {
        self.elapsed_nanos
    }
}

/// How many of the records hold a passing outcome.
pub open spec fn count_passed(s: Seq<RecordView>) -> nat
    decreases s.len(),
{
    if s.len() == 0 {
        0
    } else {
        count_passed(s.drop_last()) + if s.last().ok {
            1nat
        } else {
            0nat
        }
    }
}

/// How many of the records hold a failing outcome.
pub open spec fn count_failed(s: Seq<RecordView>) -> nat
    decreases s.len(),
{
    if s.len() == 0 {
        0
    } else {
        count_failed(s.drop_last()) + if s.last().ok {
            0nat
        } else {
            1nat
        }
    }
}

/// A record's elapsed time is a whole count of nanoseconds: however fast
/// the predicate ran, no record holds a negative duration.
pub proof fn lemma_elapsed_nonnegative(s: Seq<RecordView>, i: int)
    requires
        0 <= i < s.len(),
    ensures
        s[i].elapsed_nanos >= 0,
{
}

/// Every record is either a success or a failure, so the two counters always
/// partition the record set: their sum is the number of checks recorded.
pub proof fn lemma_counts_partition(s: Seq<RecordView>)
    ensures
        count_passed(s) + count_failed(s) == s.len(),
    decreases s.len(),
{
    if s.len() > 0 {
        lemma_counts_partition(s.drop_last());
    }
}

/// Neither counter can exceed the number of records.
pub proof fn lemma_counts_bounded(s: Seq<RecordView>)
    ensures
        count_passed(s) <= s.len(),
        count_failed(s) <= s.len(),
    decreases s.len(),
{
    if s.len() > 0 {
        lemma_counts_bounded(s.drop_last());
    }
}

/// Appending one record moves exactly one of the two counters, the one of
/// the record's outcome.
pub proof fn lemma_counts_push(s: Seq<RecordView>, r: RecordView)
    ensures
        count_passed(s.push(r)) == count_passed(s) + if r.ok {
            1nat
        } else {
            0nat
        },
        count_failed(s.push(r)) == count_failed(s) + if r.ok {
            0nat
        } else {
            1nat
        },
{
    assert(s.push(r).drop_last() =~= s);
    assert(s.push(r).last() == r);
}

/// One check was recorded: the new record set extends the old one by one
/// record, whose outcome is `ok` and whose message is the success wording
/// exactly when the check passed.
pub open spec fn spec_recorded(
    pre: Seq<RecordView>,
    post: Seq<RecordView>,
    ok: bool,
    success_message: Seq<char>,
    failure_message: Seq<char>,
) -> bool {
    &&& post.len() == pre.len() + 1
    &&& post.drop_last() == pre
    &&& post.last().ok == ok
    &&& post.last().message == if ok {
        success_message
    } else {
        failure_message
    }
}

/// One check was recorded, with the given message pair, whatever its
/// outcome came to.
pub open spec fn spec_checked(
    pre: Seq<RecordView>,
    post: Seq<RecordView>,
    success_message: Seq<char>,
    failure_message: Seq<char>,
) -> bool {
    exists|t: bool| spec_recorded(pre, post, t, success_message, failure_message)
}

/// One record, in a batch contract: its outcome and its chosen message.
pub open spec fn is_record(
    rec: RecordView,
    ok: bool,
    success_message: Seq<char>,
    failure_message: Seq<char>,
) -> bool {
    rec.ok == ok && rec.message == if ok {
        success_message
    } else {
        failure_message
    }
}

} // verus!
