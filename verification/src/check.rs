//! Standalone comparators: one check, no accumulator.

use vstd::prelude::*;
use vstd::std_specs::cmp::{PartialEqSpec, PartialOrdIs, PartialOrdSpec};

verus! {

/// Comparisons that report their outcome and never stop the run.
pub struct Check {}

impl Check {
    /// Whether the two values are equal, by their own equality.
    pub fn eq<T: PartialEq>(a: &T, b: &T) -> (r: bool)
        ensures
            T::obeys_eq_spec() ==> r == a.eq_spec(b),
    {
        a.eq(b)
    }

    /// Whether the two values differ, by their own equality.
    pub fn ne<T: PartialEq>(a: &T, b: &T) -> (r: bool)
        ensures
            T::obeys_eq_spec() ==> r == !a.eq_spec(b),
    {
        a.ne(b)
    }

    /// Whether `a` is strictly greater than `b`.
    pub fn gt<T: PartialOrd>(a: &T, b: &T) -> (r: bool)
        ensures
            T::obeys_partial_cmp_spec() ==> r == a.is_gt(b),
    {
        a.gt(b)
    }

    /// Whether `a` is strictly less than `b`.
    pub fn lt<T: PartialOrd>(a: &T, b: &T) -> (r: bool)
        ensures
            T::obeys_partial_cmp_spec() ==> r == a.is_lt(b),
    {
        a.lt(b)
    }

    /// Whether `a` is less than or equal to `b`.
    pub fn le<T: PartialOrd>(a: &T, b: &T) -> (r: bool)
        ensures
            T::obeys_partial_cmp_spec() ==> r == a.is_le(b),
    {
        a.le(b)
    }

    /// Whether `a` is greater than or equal to `b`.
    pub fn ge<T: PartialOrd>(a: &T, b: &T) -> (r: bool)
        ensures
            T::obeys_partial_cmp_spec() ==> r == a.is_ge(b),
    {
        a.ge(b)
    }
}

/// Comparisons that demand their outcome: a caller must establish the
/// relation before the call, since a failed one would stop the run.
pub struct Assertion {}

impl Assertion {
    /// Demand that the two values are equal, by their own equality.
    pub fn eq<T: PartialEq>(a: &T, b: &T)
        requires
            T::obeys_eq_spec(),
            a.eq_spec(b),
    {
        let _holds = a.eq(b);
    }

    /// Demand that the two values differ, by their own equality.
    pub fn ne<T: PartialEq>(a: &T, b: &T)
        requires
            T::obeys_eq_spec(),
            !a.eq_spec(b),
    {
        let _holds = a.ne(b);
    }

    /// Demand that `a` is greater than or equal to `b`.
    pub fn ge<T: PartialOrd>(a: &T, b: &T)
        requires
            T::obeys_partial_cmp_spec(),
            a.is_ge(b),
    {
        let _holds = a.ge(b);
    }

    /// Demand that `a` is strictly greater than `b`.
    pub fn gt<T: PartialOrd>(a: &T, b: &T)
        requires
            T::obeys_partial_cmp_spec(),
            a.is_gt(b),
    {
        let _holds = a.gt(b);
    }

    /// Demand that `a` is less than or equal to `b`.
    pub fn le<T: PartialOrd>(a: &T, b: &T)
        requires
            T::obeys_partial_cmp_spec(),
            a.is_le(b),
    {
        let _holds = a.le(b);
    }

    /// Demand that `a` is strictly less than `b`.
    pub fn lt<T: PartialOrd>(a: &T, b: &T)
        requires
            T::obeys_partial_cmp_spec(),
            a.is_lt(b),
    {
        let _holds = a.lt(b);
    }
}

} // verus!
