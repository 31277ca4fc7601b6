//! The permissive accumulator: every check in a run is evaluated whatever
//! the earlier outcomes were, and the verdict is deferred to the end.

use vstd::prelude::*;

use std::collections::HashSet;

use vstd::std_specs::cmp::{PartialEqSpec, PartialOrdIs, PartialOrdSpec};
use vstd::std_specs::hash::{builds_valid_hashers, obeys_key_model};

use crate::clock;
use crate::compare::{records_negation, records_result, seq_has, vec_has};
use crate::errors::SetupError;
use crate::output::{
    IS_BEGIN, IS_BETWEEN, IS_CONTAINS, IS_EQUALS, IS_EXECUTABLE, IS_EXISTS, IS_FAIL, IS_FINNISH,
    IS_INFERIOR, IS_KO, IS_MATCH, IS_NOT_BEGIN, IS_NOT_BETWEEN, IS_NOT_CONTAINS,
    IS_NOT_EXECUTABLE, IS_NOT_EXISTS, IS_NOT_FAIL, IS_NOT_FINNISH, IS_NOT_MATCH, IS_OK,
    IS_SUCCESS, IS_SUPERIOR, IS_UNEQUALS, THEORY_IS_FALSE, THEORY_IS_TRUE,
};
use crate::paths;
use crate::pattern::{regex_accepts, regex_group, regex_is_match, regex_valid};
use crate::records::{
    count_failed, count_passed, is_record, lemma_counts_bounded, lemma_counts_push, spec_checked,
    spec_recorded, CheckRecord, RecordView,
};
use crate::report::{report_of, Report};
use crate::text;

verus! {

broadcast use vstd::std_specs::vec::group_vec_axioms;

/// Accumulates the outcome of every check of a run, successes and failures
/// alike. Failure is only observable once [`Unit::end`] renders the report.
#[derive(Debug)]
pub struct Unit {
    records: Vec<CheckRecord>,
    successes: usize,
    failures: usize,
    sleep: u64,
}

impl View for Unit {
    type V = Seq<RecordView>;

    closed spec fn view(&self) -> Seq<RecordView> {
        self.records.deep_view()
    }
}

impl Unit {
    /// The two counters are kept incrementally and always tally the records.
    #[verifier::type_invariant]
    spec fn wf(self) -> bool {
        self.successes as nat == count_passed(self@) && self.failures as nat == count_failed(
            self@,
        )
    }

    /// The pacing delay, in milliseconds, handed to the report.
    pub closed spec fn spec_sleep(self) -> u64 {
        self.sleep
    }

    /// A fresh accumulator with no record.
    pub fn new(sleep_time: u64) -> (r: Self)
        ensures
            r@ == Seq::<RecordView>::empty(),
            r.spec_sleep() == sleep_time,
    {
        let records: Vec<CheckRecord> = Vec::new();
        proof {
            assert(records.deep_view() =~= Seq::<RecordView>::empty());
        }
        Unit { records, successes: 0, failures: 0, sleep: sleep_time }
    }

    /// Record one evaluated check: append its record, chosen wording and
    /// measured duration included, and move the counter of its outcome.
    pub fn record(
        self,
        ok: bool,
        elapsed_nanos: u128,
        success_message: &str,
        failure_message: &str,
    ) -> (r: Self)
        ensures
            r@ == self@.push(
                RecordView {
                    ok,
                    message: if ok {
                        success_message@
                    } else {
                        failure_message@
                    },
                    elapsed_nanos: elapsed_nanos as nat,
                },
            ),
            spec_recorded(self@, r@, ok, success_message@, failure_message@),
            spec_checked(self@, r@, success_message@, failure_message@),
            r.spec_sleep() == self.spec_sleep(),
    {
        proof {
            use_type_invariant(&self);
            lemma_counts_bounded(self@);
        }
        let Unit { mut records, successes, failures, sleep } = self;
        let message = if ok {
            success_message
        } else {
            failure_message
        };
        let ghost pre = records.deep_view();
        records.push(CheckRecord::new(ok, message.to_owned(), elapsed_nanos));
        proof {
            assert(vstd::std_specs::vec::spec_vec_len(&records) == records@.len());
            assert(records.deep_view() =~= pre.push(records.deep_view().last()));
            lemma_counts_push(pre, records.deep_view().last());
            assert(records.deep_view().drop_last() =~= pre);
        }
        if ok {
            Unit { records, successes: successes + 1, failures, sleep }
        } else {
            Unit { records, successes, failures: failures + 1, sleep }
        }
    }

    /// Record an already-evaluated check, timing only the recording itself.
    pub fn take(self, t: bool, s: &str, e: &str) -> (r: Self)
        ensures
            spec_recorded(self@, r@, t, s@, e@),
            r.spec_sleep() == self.spec_sleep(),
    {
        let start = clock::clock_now();
        let nanos = clock::duration_nanos(&clock::elapsed_since(&start));
        self.record(t, nanos, s, e)
    }

    /// Record an already-evaluated check, in place.
    pub fn check(&mut self, t: bool, s: &str, e: &str)
        ensures
            spec_recorded(old(self)@, final(self)@, t, s@, e@),
            final(self).spec_sleep() == old(self).spec_sleep(),
    {
        let mut tmp = Unit::new(0);
        core::mem::swap(self, &mut tmp);
        let mut done = tmp.take(t, s, e);
        core::mem::swap(self, &mut done);
    }

    /// Record a check that passes exactly when the flag is true.
    pub fn ok(self, f: bool) -> (r: Self)
        ensures
            spec_recorded(self@, r@, f, IS_OK@, IS_KO@),
            r.spec_sleep() == self.spec_sleep(),
    {
        self.take(f, IS_OK, IS_KO)
    }

    /// Record a check that passes exactly when the flag is false.
    pub fn ko(self, f: bool) -> (r: Self)
        ensures
            spec_recorded(self@, r@, !f, IS_KO@, IS_OK@),
            r.spec_sleep() == self.spec_sleep(),
    {
        self.take(!f, IS_KO, IS_OK)
    }

    /// Record whether the two values are equal, by their own equality.
    pub fn eq<T: PartialEq>(self, a: T, b: T) -> (r: Self)
        ensures
            spec_checked(self@, r@, IS_EQUALS@, IS_UNEQUALS@),
            T::obeys_eq_spec() ==> spec_recorded(
                self@,
                r@,
                a.eq_spec(&b),
                IS_EQUALS@,
                IS_UNEQUALS@,
            ),
            r.spec_sleep() == self.spec_sleep(),
    {
        let start = clock::clock_now();
        let t = a.eq(&b);
        let nanos = clock::duration_nanos(&clock::elapsed_since(&start));
        self.record(t, nanos, IS_EQUALS, IS_UNEQUALS)
    }

    /// Record whether the two values differ, by their own equality.
    pub fn ne<T: PartialEq>(self, a: T, b: T) -> (r: Self)
        ensures
            spec_checked(self@, r@, IS_UNEQUALS@, IS_EQUALS@),
            T::obeys_eq_spec() ==> spec_recorded(
                self@,
                r@,
                !a.eq_spec(&b),
                IS_UNEQUALS@,
                IS_EQUALS@,
            ),
            r.spec_sleep() == self.spec_sleep(),
    {
        let start = clock::clock_now();
        let t = a.ne(&b);
        let nanos = clock::duration_nanos(&clock::elapsed_since(&start));
        self.record(t, nanos, IS_UNEQUALS, IS_EQUALS)
    }

    /// Record whether `a` is strictly greater than `min`.
    pub fn gt<T: PartialOrd>(self, a: T, min: T) -> (r: Self)
        ensures
            spec_checked(self@, r@, IS_SUPERIOR@, IS_INFERIOR@),
            T::obeys_partial_cmp_spec() ==> spec_recorded(
                self@,
                r@,
                a.is_gt(&min),
                IS_SUPERIOR@,
                IS_INFERIOR@,
            ),
            r.spec_sleep() == self.spec_sleep(),
    {
        let start = clock::clock_now();
        let t = a.gt(&min);
        let nanos = clock::duration_nanos(&clock::elapsed_since(&start));
        self.record(t, nanos, IS_SUPERIOR, IS_INFERIOR)
    }

    /// Record whether `a` is greater than or equal to `max`.
    pub fn ge<T: PartialOrd>(self, a: T, max: T) -> (r: Self)
        ensures
            spec_checked(self@, r@, IS_INFERIOR@, IS_SUPERIOR@),
            T::obeys_partial_cmp_spec() ==> spec_recorded(
                self@,
                r@,
                a.is_ge(&max),
                IS_INFERIOR@,
                IS_SUPERIOR@,
            ),
            r.spec_sleep() == self.spec_sleep(),
    {
        let start = clock::clock_now();
        let t = a.ge(&max);
        let nanos = clock::duration_nanos(&clock::elapsed_since(&start));
        self.record(t, nanos, IS_INFERIOR, IS_SUPERIOR)
    }

    /// Record whether `a` is strictly less than `max`.
    pub fn lt<T: PartialOrd>(self, a: T, max: T) -> (r: Self)
        ensures
            spec_checked(self@, r@, IS_SUPERIOR@, IS_INFERIOR@),
            T::obeys_partial_cmp_spec() ==> spec_recorded(
                self@,
                r@,
                a.is_lt(&max),
                IS_SUPERIOR@,
                IS_INFERIOR@,
            ),
            r.spec_sleep() == self.spec_sleep(),
    {
        let start = clock::clock_now();
        let t = a.lt(&max);
        let nanos = clock::duration_nanos(&clock::elapsed_since(&start));
        self.record(t, nanos, IS_SUPERIOR, IS_INFERIOR)
    }

    /// Record whether `a` is less than or equal to `max`.
    pub fn le<T: PartialOrd>(self, a: T, max: T) -> (r: Self)
        ensures
            spec_checked(self@, r@, IS_INFERIOR@, IS_SUPERIOR@),
            T::obeys_partial_cmp_spec() ==> spec_recorded(
                self@,
                r@,
                a.is_le(&max),
                IS_INFERIOR@,
                IS_SUPERIOR@,
            ),
            r.spec_sleep() == self.spec_sleep(),
    {
        let start = clock::clock_now();
        let t = a.le(&max);
        let nanos = clock::duration_nanos(&clock::elapsed_since(&start));
        self.record(t, nanos, IS_INFERIOR, IS_SUPERIOR)
    }

    /// Record whether `a` lies strictly between `min` and `max`.
    pub fn between<T: PartialOrd>(self, a: T, min: T, max: T) -> (r: Self)
        ensures
            spec_checked(self@, r@, IS_BETWEEN@, IS_NOT_BETWEEN@),
            T::obeys_partial_cmp_spec() ==> spec_recorded(
                self@,
                r@,
                a.is_gt(&min) && a.is_lt(&max),
                IS_BETWEEN@,
                IS_NOT_BETWEEN@,
            ),
            r.spec_sleep() == self.spec_sleep(),
    {
        let start = clock::clock_now();
        let t = if a.gt(&min) {
            a.lt(&max)
        } else {
            false
        };
        let nanos = clock::duration_nanos(&clock::elapsed_since(&start));
        self.record(t, nanos, IS_BETWEEN, IS_NOT_BETWEEN)
    }

    /// Record whether the vector contains the value.
    pub fn vec_contains<T: PartialEq>(self, a: Vec<T>, b: T) -> (r: Self)
        ensures
            spec_checked(self@, r@, IS_CONTAINS@, IS_NOT_CONTAINS@),
            T::obeys_eq_spec() ==> spec_recorded(
                self@,
                r@,
                seq_has(a@, b),
                IS_CONTAINS@,
                IS_NOT_CONTAINS@,
            ),
            r.spec_sleep() == self.spec_sleep(),
    {
        let start = clock::clock_now();
        let t = vec_has(&a, &b);
        let nanos = clock::duration_nanos(&clock::elapsed_since(&start));
        self.record(t, nanos, IS_CONTAINS, IS_NOT_CONTAINS)
    }

    /// Record whether the vector does not contain the value.
    pub fn vec_no_contains<T: PartialEq>(self, a: Vec<T>, b: T) -> (r: Self)
        ensures
            spec_checked(self@, r@, IS_CONTAINS@, IS_NOT_CONTAINS@),
            T::obeys_eq_spec() ==> spec_recorded(
                self@,
                r@,
                !seq_has(a@, b),
                IS_CONTAINS@,
                IS_NOT_CONTAINS@,
            ),
            r.spec_sleep() == self.spec_sleep(),
    {
        let start = clock::clock_now();
        let t = !vec_has(&a, &b);
        let nanos = clock::duration_nanos(&clock::elapsed_since(&start));
        self.record(t, nanos, IS_CONTAINS, IS_NOT_CONTAINS)
    }

    /// Record whether the option holds exactly the value. The option must
    /// hold something: an empty one is a misconfigured check.
    pub fn option_contains<T: PartialEq>(self, a: Option<T>, b: T) -> (r: Self)
        requires
            a is Some,
        ensures
            spec_checked(self@, r@, IS_CONTAINS@, IS_NOT_CONTAINS@),
            T::obeys_eq_spec() ==> spec_recorded(
                self@,
                r@,
                a->0.eq_spec(&b),
                IS_CONTAINS@,
                IS_NOT_CONTAINS@,
            ),
            r.spec_sleep() == self.spec_sleep(),
    {
        let start = clock::clock_now();
        let t = match &a {
            Some(v) => v.eq(&b),
            None => false,
        };
        let nanos = clock::duration_nanos(&clock::elapsed_since(&start));
        self.record(t, nanos, IS_CONTAINS, IS_NOT_CONTAINS)
    }

    /// Record whether the set contains the string.
    pub fn hash_contains(self, a: &mut HashSet<String>, b: String) -> (r: Self)
        ensures
            *final(a) == *old(a),
            spec_checked(self@, r@, IS_CONTAINS@, IS_NOT_CONTAINS@),
            obeys_key_model::<String>() && builds_valid_hashers::<
                std::collections::hash_map::RandomState,
            >() ==> spec_recorded(self@, r@, old(a)@.contains(b), IS_CONTAINS@, IS_NOT_CONTAINS@),
            r.spec_sleep() == self.spec_sleep(),
    {
        let start = clock::clock_now();
        let t = a.contains(&b);
        let nanos = clock::duration_nanos(&clock::elapsed_since(&start));
        self.record(t, nanos, IS_CONTAINS, IS_NOT_CONTAINS)
    }

    /// Record whether the string contains the substring.
    pub fn str_contains(self, a: &str, b: &str) -> (r: Self)
        ensures
            spec_recorded(self@, r@, text::spec_contains(a@, b@), IS_CONTAINS@, IS_NOT_CONTAINS@),
            r.spec_sleep() == self.spec_sleep(),
    {
        let start = clock::clock_now();
        let t = text::str_has(a, b);
        let nanos = clock::duration_nanos(&clock::elapsed_since(&start));
        self.record(t, nanos, IS_CONTAINS, IS_NOT_CONTAINS)
    }

    /// Record whether the string begins with the expected prefix.
    pub fn start_with(self, actual: &str, expected: &str) -> (r: Self)
        ensures
            spec_recorded(
                self@,
                r@,
                text::spec_starts_with(actual@, expected@),
                IS_BEGIN@,
                IS_NOT_BEGIN@,
            ),
            r.spec_sleep() == self.spec_sleep(),
    {
        let start = clock::clock_now();
        let t = text::str_starts(actual, expected);
        let nanos = clock::duration_nanos(&clock::elapsed_since(&start));
        self.record(t, nanos, IS_BEGIN, IS_NOT_BEGIN)
    }

    /// Record whether the string ends with the expected suffix.
    pub fn end_with(self, actual: &str, expected: &str) -> (r: Self)
        ensures
            spec_recorded(
                self@,
                r@,
                text::spec_ends_with(actual@, expected@),
                IS_FINNISH@,
                IS_NOT_FINNISH@,
            ),
            r.spec_sleep() == self.spec_sleep(),
    {
        let start = clock::clock_now();
        let t = text::str_ends(actual, expected);
        let nanos = clock::duration_nanos(&clock::elapsed_since(&start));
        self.record(t, nanos, IS_FINNISH, IS_NOT_FINNISH)
    }

    /// Record whether the path exists on disk right now.
    pub fn exists_path(self, p: &str) -> (r: Self)
        ensures
            spec_checked(self@, r@, IS_EXISTS@, IS_NOT_EXISTS@),
            r.spec_sleep() == self.spec_sleep(),
    {
        let start = clock::clock_now();
        let t = paths::path_exists(p);
        let nanos = clock::duration_nanos(&clock::elapsed_since(&start));
        self.record(t, nanos, IS_EXISTS, IS_NOT_EXISTS)
    }

    /// Record whether the path is absent from disk right now.
    pub fn not_exists(self, p: &str) -> (r: Self)
        ensures
            spec_checked(self@, r@, IS_NOT_EXISTS@, IS_EXISTS@),
            r.spec_sleep() == self.spec_sleep(),
    {
        let start = clock::clock_now();
        let t = !paths::path_exists(p);
        let nanos = clock::duration_nanos(&clock::elapsed_since(&start));
        self.record(t, nanos, IS_NOT_EXISTS, IS_EXISTS)
    }

    /// Record whether the path points to an executable file right now.
    pub fn exe(self, p: &str) -> (r: Self)
        ensures
            spec_checked(self@, r@, IS_EXECUTABLE@, IS_NOT_EXECUTABLE@),
            r.spec_sleep() == self.spec_sleep(),
    {
        let start = clock::clock_now();
        let t = paths::path_is_executable(p);
        let nanos = clock::duration_nanos(&clock::elapsed_since(&start));
        self.record(t, nanos, IS_EXECUTABLE, IS_NOT_EXECUTABLE)
    }

    /// Record whether the producer's result equals the expected value.
    pub fn theory<T: PartialEq, F: Fn() -> T>(self, expected: T, callback: F) -> (r: Self)
        requires
            call_requires(callback, ()),
        ensures
            spec_checked(self@, r@, THEORY_IS_TRUE@, THEORY_IS_FALSE@),
            exists|v: T|
                #[trigger] call_ensures(callback, (), v) && (T::obeys_eq_spec() ==> spec_recorded(
                    self@,
                    r@,
                    v.eq_spec(&expected),
                    THEORY_IS_TRUE@,
                    THEORY_IS_FALSE@,
                )),
            r.spec_sleep() == self.spec_sleep(),
    {
        let start = clock::clock_now();
        let v = callback();
        let t = v.eq(&expected);
        let nanos = clock::duration_nanos(&clock::elapsed_since(&start));
        let ghost pre = self@;
        let r = self.record(t, nanos, THEORY_IS_TRUE, THEORY_IS_FALSE);
        proof {
            assert(call_ensures(callback, (), v) && (T::obeys_eq_spec() ==> spec_recorded(
                pre,
                r@,
                v.eq_spec(&expected),
                THEORY_IS_TRUE@,
                THEORY_IS_FALSE@,
            )));
        }
        r
    }

    /// Record whether the producer's result equals the expected value.
    pub fn theorem<T: PartialEq, F: Fn() -> T>(self, expected: T, actual: F) -> (r: Self)
        requires
            call_requires(actual, ()),
        ensures
            spec_checked(self@, r@, THEORY_IS_TRUE@, THEORY_IS_FALSE@),
            exists|v: T|
                #[trigger] call_ensures(actual, (), v) && (T::obeys_eq_spec() ==> spec_recorded(
                    self@,
                    r@,
                    expected.eq_spec(&v),
                    THEORY_IS_TRUE@,
                    THEORY_IS_FALSE@,
                )),
            r.spec_sleep() == self.spec_sleep(),
    {
        let start = clock::clock_now();
        let v = actual();
        let t = expected.eq(&v);
        let nanos = clock::duration_nanos(&clock::elapsed_since(&start));
        let ghost pre = self@;
        let r = self.record(t, nanos, THEORY_IS_TRUE, THEORY_IS_FALSE);
        proof {
            assert(call_ensures(actual, (), v) && (T::obeys_eq_spec() ==> spec_recorded(
                pre,
                r@,
                expected.eq_spec(&v),
                THEORY_IS_TRUE@,
                THEORY_IS_FALSE@,
            )));
        }
        r
    }

    /// Record a check that expects instability: it passes exactly when the
    /// producer comes back false.
    pub fn chaos<F: Fn() -> bool>(self, callback: F) -> (r: Self)
        requires
            call_requires(callback, ()),
        ensures
            exists|v: bool|
                #[trigger] call_ensures(callback, (), v) && spec_recorded(
                    self@,
                    r@,
                    v == false,
                    THEORY_IS_TRUE@,
                    THEORY_IS_FALSE@,
                ),
            r.spec_sleep() == self.spec_sleep(),
    {
        let start = clock::clock_now();
        let v = callback();
        let t = !v;
        let nanos = clock::duration_nanos(&clock::elapsed_since(&start));
        self.record(t, nanos, THEORY_IS_TRUE, THEORY_IS_FALSE)
    }

    /// Evaluate each callback in order and record whether it came back true.
    pub fn success<F: Fn() -> bool>(self, callbacks: Vec<F>) -> (r: Self)
        requires
            forall|i: int|
                0 <= i < callbacks@.len() ==> call_requires(#[trigger] callbacks@[i], ()),
        ensures
            r@.len() == self@.len() + callbacks@.len(),
            r@.subrange(0, self@.len() as int) == self@,
            forall|i: int|
                0 <= i < callbacks@.len() ==> records_result(
                    #[trigger] callbacks@[i],
                    r@[self@.len() + i],
                    IS_SUCCESS@,
                    IS_FAIL@,
                ),
            r.spec_sleep() == self.spec_sleep(),
    {
        let ghost pre = self@;
        let ghost pace = self.spec_sleep();
        let mut u = self;
        let mut i: usize = 0;
        while i < callbacks.len()
            invariant
                forall|k: int|
                    0 <= k < callbacks@.len() ==> call_requires(#[trigger] callbacks@[k], ()),
                i <= callbacks.len(),
                u@.len() == pre.len() + i as int,
                u@.subrange(0, pre.len() as int) == pre,
                forall|k: int|
                    0 <= k < i as int ==> records_result(
                        #[trigger] callbacks@[k],
                        u@[pre.len() + k],
                        IS_SUCCESS@,
                        IS_FAIL@,
                    ),
                u.spec_sleep() == pace,
            decreases callbacks.len() - i,
        {
            let c = &callbacks[i];
            let start = clock::clock_now();
            let v = c();
            let nanos = clock::duration_nanos(&clock::elapsed_since(&start));
            let ghost before = u@;
            u = u.record(v, nanos, IS_SUCCESS, IS_FAIL);
            proof {
                assert(u@.subrange(0, pre.len() as int) =~= pre);
                assert(u@[pre.len() + i as int] == u@.last());
            }
            i += 1;
        }
        u
    }

    /// Evaluate each callback in order and record whether it came back
    /// false.
    pub fn fail<F: Fn() -> bool>(self, callbacks: Vec<F>) -> (r: Self)
        requires
            forall|i: int|
                0 <= i < callbacks@.len() ==> call_requires(#[trigger] callbacks@[i], ()),
        ensures
            r@.len() == self@.len() + callbacks@.len(),
            r@.subrange(0, self@.len() as int) == self@,
            forall|i: int|
                0 <= i < callbacks@.len() ==> records_negation(
                    #[trigger] callbacks@[i],
                    r@[self@.len() + i],
                    IS_FAIL@,
                    IS_NOT_FAIL@,
                ),
            r.spec_sleep() == self.spec_sleep(),
    {
        let ghost pre = self@;
        let ghost pace = self.spec_sleep();
        let mut u = self;
        let mut i: usize = 0;
        while i < callbacks.len()
            invariant
                forall|k: int|
                    0 <= k < callbacks@.len() ==> call_requires(#[trigger] callbacks@[k], ()),
                i <= callbacks.len(),
                u@.len() == pre.len() + i as int,
                u@.subrange(0, pre.len() as int) == pre,
                forall|k: int|
                    0 <= k < i as int ==> records_negation(
                        #[trigger] callbacks@[k],
                        u@[pre.len() + k],
                        IS_FAIL@,
                        IS_NOT_FAIL@,
                    ),
                u.spec_sleep() == pace,
            decreases callbacks.len() - i,
        {
            let c = &callbacks[i];
            let start = clock::clock_now();
            let v = c();
            let nanos = clock::duration_nanos(&clock::elapsed_since(&start));
            u = u.record(!v, nanos, IS_FAIL, IS_NOT_FAIL);
            proof {
                assert(u@.subrange(0, pre.len() as int) =~= pre);
                assert(u@[pre.len() + i as int] == u@.last());
            }
            i += 1;
        }
        u
    }

    /// Record, for each value, whether the pattern matches it. An invalid
    /// pattern is a misconfigured check and aborts the run.
    pub fn matches(self, pattern: &str, values: Vec<String>) -> (r: Result<Self, SetupError>)
        ensures
            r is Ok <==> regex_valid(pattern@),
            r is Err ==> r->Err_0 == SetupError::InvalidPattern,
            r is Ok ==> r->Ok_0@.len() == self@.len() + values@.len(),
            r is Ok ==> r->Ok_0@.subrange(0, self@.len() as int) == self@,
            r is Ok ==> forall|i: int|
                0 <= i < values@.len() ==> is_record(
                    #[trigger] r->Ok_0@[self@.len() + i],
                    regex_accepts(pattern@, values@[i]@),
                    IS_MATCH@,
                    IS_NOT_MATCH@,
                ),
            r is Ok ==> r->Ok_0.spec_sleep() == self.spec_sleep(),
    {
        if !crate::pattern::regex_check(pattern) {
            return Err(SetupError::InvalidPattern);
        }
        let ghost pre = self@;
        let ghost pace = self.spec_sleep();
        let mut u = self;
        let mut i: usize = 0;
        while i < values.len()
            invariant
                regex_valid(pattern@),
                i <= values.len(),
                u@.len() == pre.len() + i as int,
                u@.subrange(0, pre.len() as int) == pre,
                forall|k: int|
                    0 <= k < i as int ==> is_record(
                        #[trigger] u@[pre.len() + k],
                        regex_accepts(pattern@, values@[k]@),
                        IS_MATCH@,
                        IS_NOT_MATCH@,
                    ),
                u.spec_sleep() == pace,
            decreases values.len() - i,
        {
            let start = clock::clock_now();
            let t = match regex_is_match(pattern, values[i].as_str()) {
                Some(t) => t,
                None => false,
            };
            let nanos = clock::duration_nanos(&clock::elapsed_since(&start));
            u = u.record(t, nanos, IS_MATCH, IS_NOT_MATCH);
            proof {
                assert(u@.subrange(0, pre.len() as int) =~= pre);
                assert(u@[pre.len() + i as int] == u@.last());
            }
            i += 1;
        }
        Ok(u)
    }

    /// Record, for each value, whether the given capture group of the
    /// pattern's first match in `x` equals it. An invalid pattern, a pattern
    /// that never matches, or a missing group is a misconfigured check.
    pub fn capture(self, pattern: &str, x: &str, key: usize, values: Vec<String>) -> (r: Result<
        Self,
        SetupError,
    >)
        ensures
            !regex_valid(pattern@) ==> r == Err::<Self, SetupError>(SetupError::InvalidPattern),
            regex_valid(pattern@) && regex_group(pattern@, x@, key as int) is None ==> r == Err::<
                Self,
                SetupError,
            >(SetupError::MissingCapture),
            r is Ok <==> regex_valid(pattern@) && regex_group(pattern@, x@, key as int) is Some,
            r is Ok ==> r->Ok_0@.len() == self@.len() + values@.len(),
            r is Ok ==> r->Ok_0@.subrange(0, self@.len() as int) == self@,
            r is Ok ==> forall|i: int|
                0 <= i < values@.len() ==> is_record(
                    #[trigger] r->Ok_0@[self@.len() + i],
                    regex_group(pattern@, x@, key as int)->0 == values@[i]@,
                    IS_MATCH@,
                    IS_NOT_MATCH@,
                ),
            r is Ok ==> r->Ok_0.spec_sleep() == self.spec_sleep(),
    {
        let group = match crate::pattern::regex_capture_group(pattern, x, key) {
            None => {
                return Err(SetupError::InvalidPattern);
            },
            Some(None) => {
                return Err(SetupError::MissingCapture);
            },
            Some(Some(g)) => g,
        };
        let ghost pre = self@;
        let ghost pace = self.spec_sleep();
        let mut u = self;
        let mut i: usize = 0;
        while i < values.len()
            invariant
                regex_valid(pattern@),
                regex_group(pattern@, x@, key as int) is Some,
                group@ == regex_group(pattern@, x@, key as int)->0,
                i <= values.len(),
                u@.len() == pre.len() + i as int,
                u@.subrange(0, pre.len() as int) == pre,
                forall|k: int|
                    0 <= k < i as int ==> is_record(
                        #[trigger] u@[pre.len() + k],
                        regex_group(pattern@, x@, key as int)->0 == values@[k]@,
                        IS_MATCH@,
                        IS_NOT_MATCH@,
                    ),
                u.spec_sleep() == pace,
            decreases values.len() - i,
        {
            let start = clock::clock_now();
            let t = group.eq(&values[i]);
            let nanos = clock::duration_nanos(&clock::elapsed_since(&start));
            u = u.record(t, nanos, IS_MATCH, IS_NOT_MATCH);
            proof {
                assert(u@.subrange(0, pre.len() as int) =~= pre);
                assert(u@[pre.len() + i as int] == u@.last());
            }
            i += 1;
        }
        Ok(u)
    }

    /// How many checks passed so far.
    pub fn success_count(&self) -> (r: usize)
        ensures
            r as nat == count_passed(self@),
    {
        proof {
            use_type_invariant(self);
        }
        self.successes
    }

    /// How many checks failed so far.
    pub fn failure_count(&self) -> (r: usize)
        ensures
            r as nat == count_failed(self@),
    {
        proof {
            use_type_invariant(self);
        }
        self.failures
    }

    /// How many checks were recorded so far.
    pub fn len(&self) -> (r: usize)
        ensures
            r as nat == self@.len(),
    {
        self.records.len()
    }

    /// Render the report: one line per record in original order, then the
    /// success and failure totals. A pure read; the accumulator is unchanged
    /// and rendering twice gives the same report.
    pub fn end(&self) -> (r: Report)
        ensures
            r@ == report_of(
                Seq::<char>::empty(),
                Seq::<char>::empty(),
                self@,
                self.spec_sleep() as nat,
            ),
    {
        proof {
            use_type_invariant(self);
        }
        let mut lines: Vec<CheckRecord> = Vec::new();
        let mut i: usize = 0;
        while i < self.records.len()
            invariant
                i <= self.records.len(),
                lines.deep_view() == self@.subrange(0, i as int),
            decreases self.records.len() - i,
        {
            let rec = &self.records[i];
            let ghost prev = lines.deep_view();
            let ghost prev_raw = lines@;
            lines.push(CheckRecord::new(rec.passed(), rec.message().clone(), rec.elapsed_nanos()));
            proof {
                assert(vstd::std_specs::vec::spec_vec_len(&self.records) == self.records@.len());
                assert(i < self@.len());
                assert(lines.deep_view().last() == self@[i as int]);
                assert(prev.len() == i as int);
                assert(prev_raw.len() == i as int);
                assert(lines.deep_view().len() == i as int + 1);
                assert(lines.deep_view()[i as int] == self@[i as int]);
                assert forall|j: int| 0 <= j < i as int implies lines.deep_view()[j] == self@[j] by {
                    assert(lines@[j] == prev_raw.push(lines@.last())[j]);
                    assert(lines@[j] == prev_raw[j]);
                    assert(lines.deep_view()[j] == prev[j]);
                    assert(prev[j] == self@.subrange(0, i as int)[j]);
                }
                assert(lines.deep_view() =~= self@.subrange(0, i as int + 1));
            }
            i += 1;
        }
        proof {
            assert(lines.deep_view() =~= self@);
        }
        Report {
            title: String::new(),
            description: String::new(),
            lines,
            successes: self.successes,
            failures: self.failures,
            pace_millis: self.sleep,
        }
    }
}

/// The permissive accumulator's two counters always partition its records:
/// their sum is the number of checks recorded so far.
pub fn counts_partition(u: &Unit)
    ensures
        count_passed(u@) + count_failed(u@) == u@.len(),
{
    proof {
        use_type_invariant(u);
        crate::records::lemma_counts_partition(u@);
    }
}

/// The callbacks, applied in order from `a`, can produce `r`: each step's
/// output is a possible result of the next callback on the previous state.
pub open spec fn folds_to<F: Fn(Unit) -> Unit>(cbs: Seq<F>, a: Unit, r: Unit) -> bool
    decreases cbs.len(),
{
    if cbs.len() == 0 {
        r == a
    } else {
        exists|m: Unit| #[trigger] call_ensures(cbs[0], (a,), m) && folds_to(cbs.drop_first(), m, r)
    }
}

/// Extending a fold by one more callback at its end.
proof fn lemma_folds_snoc<F: Fn(Unit) -> Unit>(cbs: Seq<F>, c: F, a: Unit, m: Unit, r: Unit)
    requires
        folds_to(cbs, a, m),
        call_ensures(c, (m,), r),
    ensures
        folds_to(cbs.push(c), a, r),
    decreases cbs.len(),
{
    if cbs.len() == 0 {
        assert(cbs.push(c)[0] == c);
        assert(cbs.push(c).drop_first() =~= Seq::<F>::empty());
        assert(m == a);
        assert(folds_to(cbs.push(c).drop_first(), r, r));
    } else {
        let m1 = choose|m1: Unit|
            #[trigger] call_ensures(cbs[0], (a,), m1) && folds_to(cbs.drop_first(), m1, m);
        lemma_folds_snoc(cbs.drop_first(), c, m1, m, r);
        assert(cbs.push(c).drop_first() =~= cbs.drop_first().push(c));
        assert(cbs.push(c)[0] == cbs[0]);
        assert(call_ensures(cbs.push(c)[0], (a,), m1) && folds_to(cbs.push(c).drop_first(), m1, r));
    }
}

impl Unit {
    /// Run a whole permissive suite: apply the check functions in order to a
    /// fresh accumulator and render its report under the given title.
    pub fn it<F: Fn(Unit) -> Unit>(
        title: &str,
        description: &str,
        sleep_time: u64,
        callbacks: Vec<F>,
    ) -> (r: Report)
        requires
            forall|i: int, a: Unit|
                0 <= i < callbacks@.len() ==> #[trigger] call_requires(callbacks@[i], (a,)),
        ensures
            exists|z: Unit, u: Unit|
                {
                    &&& z@ == Seq::<RecordView>::empty()
                    &&& z.spec_sleep() == sleep_time
                    &&& #[trigger] folds_to(callbacks@, z, u)
                    &&& r@ == report_of(title@, description@, u@, u.spec_sleep() as nat)
                },
    {
        let mut acc = Unit::new(sleep_time);
        let ghost z = acc;
        let mut i: usize = 0;
        while i < callbacks.len()
            invariant
                forall|k: int, a: Unit|
                    0 <= k < callbacks@.len() ==> #[trigger] call_requires(callbacks@[k], (a,)),
                i <= callbacks.len(),
                folds_to(callbacks@.subrange(0, i as int), z, acc),
            decreases callbacks.len() - i,
        {
            let ghost prev = acc;
            let c = &callbacks[i];
            acc = c(acc);
            proof {
                lemma_folds_snoc(
                    callbacks@.subrange(0, i as int),
                    callbacks@[i as int],
                    z,
                    prev,
                    acc,
                );
                assert(callbacks@.subrange(0, i as int).push(callbacks@[i as int])
                    =~= callbacks@.subrange(0, i as int + 1));
            }
            i += 1;
        }
        proof {
            assert(callbacks@.subrange(0, callbacks@.len() as int) =~= callbacks@);
        }
        let mut rep = acc.end();
        rep.title = title.to_owned();
        rep.description = description.to_owned();
        rep
    }
}

} // verus!
