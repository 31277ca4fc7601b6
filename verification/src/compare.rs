//! Comparison helpers shared by the accumulators.
//!
//! The convenience checks are generic; what an outside `PartialEq` or
//! `PartialOrd` impl returns is pinned down only for types whose impls obey
//! vstd's comparison model (integers, `bool`, and types with hand-written
//! spec impls), so the contracts here are conditional on that model.

use vstd::prelude::*;
use vstd::std_specs::cmp::PartialEqSpec;

use crate::records::{is_record, RecordView};

verus! {

broadcast use vstd::std_specs::vec::group_vec_axioms;

/// The callback produced some value, and the record holds that value as its
/// outcome, with the given message pair.
pub open spec fn records_result<F: Fn() -> bool>(
    c: F,
    rec: RecordView,
    success_message: Seq<char>,
    failure_message: Seq<char>,
) -> bool {
    exists|v: bool|
        #[trigger] call_ensures(c, (), v) && is_record(rec, v, success_message, failure_message)
}

/// The callback produced some value, and the record holds its negation as
/// its outcome, with the given message pair.
pub open spec fn records_negation<F: Fn() -> bool>(
    c: F,
    rec: RecordView,
    success_message: Seq<char>,
    failure_message: Seq<char>,
) -> bool {
    exists|v: bool|
        #[trigger] call_ensures(c, (), v) && is_record(rec, !v, success_message, failure_message)
}

/// Some element of the sequence equals the value, under the `PartialEq`
/// model of the element type.
pub open spec fn seq_has<T: PartialEq>(s: Seq<T>, x: T) -> bool {
    exists|i: int| 0 <= i < s.len() && (#[trigger] s[i]).eq_spec(&x)
}

/// Linear search by the element type's own equality.
pub(crate) fn vec_has<T: PartialEq>(a: &Vec<T>, b: &T) -> (r: bool)
    ensures
        T::obeys_eq_spec() ==> r == seq_has(a@, *b),
{
    let mut i: usize = 0;
    while i < a.len()
        invariant
            i <= a.len(),
            T::obeys_eq_spec() ==> forall|j: int| 0 <= j < i as int ==> !(#[trigger] a@[j]).eq_spec(
                b,
            ),
        decreases a.len() - i,
    {
        if a[i].eq(b) {
            return true;
        }
        i += 1;
    }
    false
}

} // verus!
