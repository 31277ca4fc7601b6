//! The strict accumulator: the first failing check stops the whole run.
//!
//! A failing check appends nothing; it surfaces as an [`ImmediateFailure`]
//! carrying the check's paired wordings, and the run around the accumulator
//! ends at once. An accumulator that exists therefore never holds a failing
//! record.

use vstd::prelude::*;

use std::collections::HashSet;

use vstd::std_specs::cmp::{PartialEqSpec, PartialOrdIs, PartialOrdSpec};
use vstd::std_specs::hash::{builds_valid_hashers, obeys_key_model};

use crate::clock;
use crate::compare::{seq_has, vec_has};
use crate::errors::{CheckError, ImmediateFailure, SetupError};
use crate::output::{
    ASSERT_BEGIN, ASSERT_BETWEEN, ASSERT_CONTAINS, ASSERT_EQUALS, ASSERT_EXISTS, ASSERT_FAIL,
    ASSERT_FINNISH, ASSERT_IS_EXECUTABLE, ASSERT_KO, ASSERT_MATCH, ASSERT_NOT_CONTAINS,
    ASSERT_NOT_EXISTS, ASSERT_OK, ASSERT_SHOULD_BE_BEGIN, ASSERT_SHOULD_BE_BETWEEN,
    ASSERT_SHOULD_BE_EQUALS, ASSERT_SHOULD_BE_EXECUTABLE, ASSERT_SHOULD_BE_EXISTS,
    ASSERT_SHOULD_BE_FAIL, ASSERT_SHOULD_BE_FINNISH, ASSERT_SHOULD_BE_KO,
    ASSERT_SHOULD_BE_NOT_CONTAINS, ASSERT_SHOULD_BE_NOT_EXISTS, ASSERT_SHOULD_BE_OK,
    ASSERT_SHOULD_BE_SUPERIOR, ASSERT_SHOULD_BE_UNEQUALS, ASSERT_SHOULD_CONTAINS,
    ASSERT_SHOULD_MATCH, ASSERT_SUPERIOR, ASSERT_THEORY_IS_FALSE, ASSERT_THEORY_IS_TRUE,
    ASSERT_THEORY_SHOULD_BE_FALSE, ASSERT_THEORY_SHOULD_BE_TRUE, ASSERT_UNEQUALS, IS_FAIL,
    IS_SUCCESS, THEORY_IS_FALSE, THEORY_IS_TRUE,
};
use crate::paths;
use crate::pattern::{regex_accepts, regex_group, regex_valid};
use crate::records::{
    count_failed, count_passed, is_record, lemma_counts_bounded, lemma_counts_push, spec_recorded,
    CheckRecord, RecordView,
};
use crate::report::{report_of, Report};
use crate::text;

verus! {

broadcast use vstd::std_specs::vec::group_vec_axioms;

/// The failure carries exactly this check's paired wordings.
pub open spec fn fails_with(
    f: ImmediateFailure,
    success_message: Seq<char>,
    failure_message: Seq<char>,
) -> bool {
    f.success_message@ == success_message && f.failure_message@ == failure_message
}

/// Accumulates only passing checks; the first failing check aborts the run
/// with an [`ImmediateFailure`] instead of being recorded.
#[derive(Debug)]
pub struct Assert {
    records: Vec<CheckRecord>,
    c: usize,
    sleep: u64,
}

impl View for Assert {
    type V = Seq<RecordView>;

    closed spec fn view(&self) -> Seq<RecordView> {
        self.records.deep_view()
    }
}

impl Assert {
    /// The counter tallies the records, and no record is a failing one.
    #[verifier::type_invariant]
    spec fn wf(self) -> bool {
        self.c as nat == self@.len() && count_failed(self@) == 0
    }

    /// The pacing delay, in milliseconds, handed to the report.
    pub closed spec fn spec_sleep(self) -> u64 {
        self.sleep
    }

    /// A fresh accumulator with no record.
    pub fn new(sleep_time: u64) -> (r: Self)
        ensures
            r@ == Seq::<RecordView>::empty(),
            r.spec_sleep() == sleep_time,
    {
        let records: Vec<CheckRecord> = Vec::new();
        proof {
            assert(records.deep_view() =~= Seq::<RecordView>::empty());
        }
        Assert { records, c: 0, sleep: sleep_time }
    }

    /// Record one evaluated check. A passing check is appended with its
    /// success wording and measured duration; a failing one aborts the run,
    /// carrying both wordings, and nothing is appended.
    pub fn record(
        self,
        ok: bool,
        elapsed_nanos: u128,
        success_message: &str,
        failure_message: &str,
    ) -> (r: Result<Self, ImmediateFailure>)
        ensures
            r is Ok <==> ok,
            ok ==> r->Ok_0@ == self@.push(
                RecordView {
                    ok: true,
                    message: success_message@,
                    elapsed_nanos: elapsed_nanos as nat,
                },
            ),
            ok ==> spec_recorded(self@, r->Ok_0@, true, success_message@, failure_message@),
            ok ==> r->Ok_0.spec_sleep() == self.spec_sleep(),
            !ok ==> fails_with(r->Err_0, success_message@, failure_message@),
    {
        if !ok {
            return Err(
                ImmediateFailure::new(success_message.to_owned(), failure_message.to_owned()),
            );
        }
        proof {
            use_type_invariant(&self);
            lemma_counts_bounded(self@);
        }
        let Assert { mut records, c, sleep } = self;
        let ghost pre = records.deep_view();
        records.push(CheckRecord::new(true, success_message.to_owned(), elapsed_nanos));
        proof {
            assert(vstd::std_specs::vec::spec_vec_len(&records) == records@.len());
            assert(records.deep_view() =~= pre.push(records.deep_view().last()));
            lemma_counts_push(pre, records.deep_view().last());
            assert(records.deep_view().drop_last() =~= pre);
        }
        Ok(Assert { records, c: c + 1, sleep })
    }

    /// Record an already-evaluated check, timing only the recording itself.
    pub fn take(self, t: bool, s: &str, e: &str) -> (r: Result<Self, ImmediateFailure>)
        ensures
            r is Ok <==> t,
            t ==> spec_recorded(self@, r->Ok_0@, true, s@, e@),
            t ==> r->Ok_0.spec_sleep() == self.spec_sleep(),
            !t ==> fails_with(r->Err_0, s@, e@),
    {
        let start = clock::clock_now();
        let nanos = clock::duration_nanos(&clock::elapsed_since(&start));
        self.record(t, nanos, s, e)
    }

    /// Record an already-evaluated check, in place. A failing check leaves
    /// the accumulator as it was and surfaces the failure.
    pub fn check(&mut self, t: bool, s: &str, e: &str) -> (r: Result<(), ImmediateFailure>)
        ensures
            r is Ok <==> t,
            t ==> spec_recorded(old(self)@, final(self)@, true, s@, e@),
            t ==> final(self).spec_sleep() == old(self).spec_sleep(),
            !t ==> *final(self) == *old(self) && fails_with(r->Err_0, s@, e@),
    {
        if !t {
            return Err(ImmediateFailure::new(s.to_owned(), e.to_owned()));
        }
        let mut tmp = Assert::new(0);
        core::mem::swap(self, &mut tmp);
        match tmp.take(t, s, e) {
            Ok(mut done) => {
                core::mem::swap(self, &mut done);
                Ok(())
            },
            Err(f) => Err(f),
        }
    }

    /// Check that the flag is true.
    pub fn ok(self, f: bool) -> (r: Result<Self, ImmediateFailure>)
        ensures
            r is Ok <==> f,
            f ==> spec_recorded(self@, r->Ok_0@, true, ASSERT_OK@, ASSERT_SHOULD_BE_OK@),
            f ==> r->Ok_0.spec_sleep() == self.spec_sleep(),
            !f ==> fails_with(r->Err_0, ASSERT_OK@, ASSERT_SHOULD_BE_OK@),
    {
        self.take(f, ASSERT_OK, ASSERT_SHOULD_BE_OK)
    }

    /// Check that the flag is false.
    pub fn ko(self, f: bool) -> (r: Result<Self, ImmediateFailure>)
        ensures
            r is Ok <==> !f,
            !f ==> spec_recorded(self@, r->Ok_0@, true, ASSERT_KO@, ASSERT_SHOULD_BE_KO@),
            !f ==> r->Ok_0.spec_sleep() == self.spec_sleep(),
            f ==> fails_with(r->Err_0, ASSERT_KO@, ASSERT_SHOULD_BE_KO@),
    {
        self.take(!f, ASSERT_KO, ASSERT_SHOULD_BE_KO)
    }

    /// Check that the two values are equal, by their own equality.
    pub fn eq<T: PartialEq>(self, a: T, b: T) -> (r: Result<Self, ImmediateFailure>)
        ensures
            r is Ok ==> spec_recorded(
                self@,
                r->Ok_0@,
                true,
                ASSERT_EQUALS@,
                ASSERT_SHOULD_BE_EQUALS@,
            ),
            r is Ok ==> r->Ok_0.spec_sleep() == self.spec_sleep(),
            r is Err ==> fails_with(r->Err_0, ASSERT_EQUALS@, ASSERT_SHOULD_BE_EQUALS@),
            T::obeys_eq_spec() ==> (r is Ok <==> a.eq_spec(&b)),
    {
        let start = clock::clock_now();
        let t = a.eq(&b);
        let nanos = clock::duration_nanos(&clock::elapsed_since(&start));
        self.record(t, nanos, ASSERT_EQUALS, ASSERT_SHOULD_BE_EQUALS)
    }

    /// Check that the two values differ, by their own equality.
    pub fn ne<T: PartialEq>(self, a: T, b: T) -> (r: Result<Self, ImmediateFailure>)
        ensures
            r is Ok ==> spec_recorded(
                self@,
                r->Ok_0@,
                true,
                ASSERT_UNEQUALS@,
                ASSERT_SHOULD_BE_UNEQUALS@,
            ),
            r is Ok ==> r->Ok_0.spec_sleep() == self.spec_sleep(),
            r is Err ==> fails_with(r->Err_0, ASSERT_UNEQUALS@, ASSERT_SHOULD_BE_UNEQUALS@),
            T::obeys_eq_spec() ==> (r is Ok <==> !a.eq_spec(&b)),
    {
        let start = clock::clock_now();
        let t = a.ne(&b);
        let nanos = clock::duration_nanos(&clock::elapsed_since(&start));
        self.record(t, nanos, ASSERT_UNEQUALS, ASSERT_SHOULD_BE_UNEQUALS)
    }

    /// Check that `a` is strictly greater than `min`.
    pub fn gt<T: PartialOrd>(self, a: T, min: T) -> (r: Result<Self, ImmediateFailure>)
        ensures
            r is Ok ==> spec_recorded(
                self@,
                r->Ok_0@,
                true,
                ASSERT_SUPERIOR@,
                ASSERT_SHOULD_BE_SUPERIOR@,
            ),
            r is Ok ==> r->Ok_0.spec_sleep() == self.spec_sleep(),
            r is Err ==> fails_with(r->Err_0, ASSERT_SUPERIOR@, ASSERT_SHOULD_BE_SUPERIOR@),
            T::obeys_partial_cmp_spec() ==> (r is Ok <==> a.is_gt(&min)),
    {
        let start = clock::clock_now();
        let t = a.gt(&min);
        let nanos = clock::duration_nanos(&clock::elapsed_since(&start));
        self.record(t, nanos, ASSERT_SUPERIOR, ASSERT_SHOULD_BE_SUPERIOR)
    }

    /// Check that `a` is greater than or equal to `min`.
    pub fn ge<T: PartialOrd>(self, a: T, min: T) -> (r: Result<Self, ImmediateFailure>)
        ensures
            r is Ok ==> spec_recorded(
                self@,
                r->Ok_0@,
                true,
                ASSERT_SUPERIOR@,
                ASSERT_SHOULD_BE_SUPERIOR@,
            ),
            r is Ok ==> r->Ok_0.spec_sleep() == self.spec_sleep(),
            r is Err ==> fails_with(r->Err_0, ASSERT_SUPERIOR@, ASSERT_SHOULD_BE_SUPERIOR@),
            T::obeys_partial_cmp_spec() ==> (r is Ok <==> a.is_ge(&min)),
    {
        let start = clock::clock_now();
        let t = a.ge(&min);
        let nanos = clock::duration_nanos(&clock::elapsed_since(&start));
        self.record(t, nanos, ASSERT_SUPERIOR, ASSERT_SHOULD_BE_SUPERIOR)
    }

    /// Check that `a` is less than or equal to `max`.
    pub fn le<T: PartialOrd>(self, a: T, max: T) -> (r: Result<Self, ImmediateFailure>)
        ensures
            r is Ok ==> spec_recorded(
                self@,
                r->Ok_0@,
                true,
                ASSERT_SUPERIOR@,
                ASSERT_SHOULD_BE_SUPERIOR@,
            ),
            r is Ok ==> r->Ok_0.spec_sleep() == self.spec_sleep(),
            r is Err ==> fails_with(r->Err_0, ASSERT_SUPERIOR@, ASSERT_SHOULD_BE_SUPERIOR@),
            T::obeys_partial_cmp_spec() ==> (r is Ok <==> a.is_le(&max)),
    {
        let start = clock::clock_now();
        let t = a.le(&max);
        let nanos = clock::duration_nanos(&clock::elapsed_since(&start));
        self.record(t, nanos, ASSERT_SUPERIOR, ASSERT_SHOULD_BE_SUPERIOR)
    }

    /// Check that `a` is strictly less than `max`.
    pub fn lt<T: PartialOrd>(self, a: T, max: T) -> (r: Result<Self, ImmediateFailure>)
        ensures
            r is Ok ==> spec_recorded(
                self@,
                r->Ok_0@,
                true,
                ASSERT_SUPERIOR@,
                ASSERT_SHOULD_BE_SUPERIOR@,
            ),
            r is Ok ==> r->Ok_0.spec_sleep() == self.spec_sleep(),
            r is Err ==> fails_with(r->Err_0, ASSERT_SUPERIOR@, ASSERT_SHOULD_BE_SUPERIOR@),
            T::obeys_partial_cmp_spec() ==> (r is Ok <==> a.is_lt(&max)),
    {
        let start = clock::clock_now();
        let t = a.lt(&max);
        let nanos = clock::duration_nanos(&clock::elapsed_since(&start));
        self.record(t, nanos, ASSERT_SUPERIOR, ASSERT_SHOULD_BE_SUPERIOR)
    }

    /// Check that `a` lies strictly between `min` and `max`.
    pub fn between<T: PartialOrd>(self, a: T, min: T, max: T) -> (r: Result<
        Self,
        ImmediateFailure,
    >)
        ensures
            r is Ok ==> spec_recorded(
                self@,
                r->Ok_0@,
                true,
                ASSERT_BETWEEN@,
                ASSERT_SHOULD_BE_BETWEEN@,
            ),
            r is Ok ==> r->Ok_0.spec_sleep() == self.spec_sleep(),
            r is Err ==> fails_with(r->Err_0, ASSERT_BETWEEN@, ASSERT_SHOULD_BE_BETWEEN@),
            T::obeys_partial_cmp_spec() ==> (r is Ok <==> a.is_gt(&min) && a.is_lt(&max)),
    {
        let start = clock::clock_now();
        let t = if a.gt(&min) {
            a.lt(&max)
        } else {
            false
        };
        let nanos = clock::duration_nanos(&clock::elapsed_since(&start));
        self.record(t, nanos, ASSERT_BETWEEN, ASSERT_SHOULD_BE_BETWEEN)
    }

    /// Check that the vector contains the value.
    pub fn vec_contains<T: PartialEq>(self, a: Vec<T>, b: T) -> (r: Result<
        Self,
        ImmediateFailure,
    >)
        ensures
            r is Ok ==> spec_recorded(
                self@,
                r->Ok_0@,
                true,
                ASSERT_CONTAINS@,
                ASSERT_SHOULD_CONTAINS@,
            ),
            r is Ok ==> r->Ok_0.spec_sleep() == self.spec_sleep(),
            r is Err ==> fails_with(r->Err_0, ASSERT_CONTAINS@, ASSERT_SHOULD_CONTAINS@),
            T::obeys_eq_spec() ==> (r is Ok <==> seq_has(a@, b)),
    {
        let start = clock::clock_now();
        let t = vec_has(&a, &b);
        let nanos = clock::duration_nanos(&clock::elapsed_since(&start));
        self.record(t, nanos, ASSERT_CONTAINS, ASSERT_SHOULD_CONTAINS)
    }

    /// Check that the vector does not contain the value.
    pub fn vec_no_contains<T: PartialEq>(self, a: Vec<T>, b: T) -> (r: Result<
        Self,
        ImmediateFailure,
    >)
        ensures
            r is Ok ==> spec_recorded(
                self@,
                r->Ok_0@,
                true,
                ASSERT_NOT_CONTAINS@,
                ASSERT_SHOULD_BE_NOT_CONTAINS@,
            ),
            r is Ok ==> r->Ok_0.spec_sleep() == self.spec_sleep(),
            r is Err ==> fails_with(
                r->Err_0,
                ASSERT_NOT_CONTAINS@,
                ASSERT_SHOULD_BE_NOT_CONTAINS@,
            ),
            T::obeys_eq_spec() ==> (r is Ok <==> !seq_has(a@, b)),
    {
        let start = clock::clock_now();
        let t = !vec_has(&a, &b);
        let nanos = clock::duration_nanos(&clock::elapsed_since(&start));
        self.record(t, nanos, ASSERT_NOT_CONTAINS, ASSERT_SHOULD_BE_NOT_CONTAINS)
    }

    /// Check that the option holds exactly the value. The option must hold
    /// something: an empty one is a misconfigured check.
    pub fn option_contains<T: PartialEq>(self, a: Option<T>, b: T) -> (r: Result<
        Self,
        ImmediateFailure,
    >)
        requires
            a is Some,
        ensures
            r is Ok ==> spec_recorded(
                self@,
                r->Ok_0@,
                true,
                ASSERT_CONTAINS@,
                ASSERT_SHOULD_CONTAINS@,
            ),
            r is Ok ==> r->Ok_0.spec_sleep() == self.spec_sleep(),
            r is Err ==> fails_with(r->Err_0, ASSERT_CONTAINS@, ASSERT_SHOULD_CONTAINS@),
            T::obeys_eq_spec() ==> (r is Ok <==> a->0.eq_spec(&b)),
    {
        let start = clock::clock_now();
        let t = match &a {
            Some(v) => v.eq(&b),
            None => false,
        };
        let nanos = clock::duration_nanos(&clock::elapsed_since(&start));
        self.record(t, nanos, ASSERT_CONTAINS, ASSERT_SHOULD_CONTAINS)
    }

    /// Check that the set contains the string.
    pub fn hash_contains(self, a: &mut HashSet<String>, b: String) -> (r: Result<
        Self,
        ImmediateFailure,
    >)
        ensures
            *final(a) == *old(a),
            r is Ok ==> spec_recorded(
                self@,
                r->Ok_0@,
                true,
                ASSERT_CONTAINS@,
                ASSERT_SHOULD_CONTAINS@,
            ),
            r is Ok ==> r->Ok_0.spec_sleep() == self.spec_sleep(),
            r is Err ==> fails_with(r->Err_0, ASSERT_CONTAINS@, ASSERT_SHOULD_CONTAINS@),
            obeys_key_model::<String>() && builds_valid_hashers::<
                std::collections::hash_map::RandomState,
            >() ==> (r is Ok <==> old(a)@.contains(b)),
    {
        let start = clock::clock_now();
        let t = a.contains(&b);
        let nanos = clock::duration_nanos(&clock::elapsed_since(&start));
        self.record(t, nanos, ASSERT_CONTAINS, ASSERT_SHOULD_CONTAINS)
    }

    /// Check that the string contains the substring.
    pub fn str_contains(self, a: &str, b: &str) -> (r: Result<Self, ImmediateFailure>)
        ensures
            r is Ok <==> text::spec_contains(a@, b@),
            r is Ok ==> spec_recorded(
                self@,
                r->Ok_0@,
                true,
                ASSERT_CONTAINS@,
                ASSERT_SHOULD_CONTAINS@,
            ),
            r is Ok ==> r->Ok_0.spec_sleep() == self.spec_sleep(),
            r is Err ==> fails_with(r->Err_0, ASSERT_CONTAINS@, ASSERT_SHOULD_CONTAINS@),
    {
        let start = clock::clock_now();
        let t = text::str_has(a, b);
        let nanos = clock::duration_nanos(&clock::elapsed_since(&start));
        self.record(t, nanos, ASSERT_CONTAINS, ASSERT_SHOULD_CONTAINS)
    }

    /// Check that the string begins with the expected prefix.
    pub fn start_with(self, actual: &str, expected: &str) -> (r: Result<Self, ImmediateFailure>)
        ensures
            r is Ok <==> text::spec_starts_with(actual@, expected@),
            r is Ok ==> spec_recorded(
                self@,
                r->Ok_0@,
                true,
                ASSERT_BEGIN@,
                ASSERT_SHOULD_BE_BEGIN@,
            ),
            r is Ok ==> r->Ok_0.spec_sleep() == self.spec_sleep(),
            r is Err ==> fails_with(r->Err_0, ASSERT_BEGIN@, ASSERT_SHOULD_BE_BEGIN@),
    {
        let start = clock::clock_now();
        let t = text::str_starts(actual, expected);
        let nanos = clock::duration_nanos(&clock::elapsed_since(&start));
        self.record(t, nanos, ASSERT_BEGIN, ASSERT_SHOULD_BE_BEGIN)
    }

    /// Check that the string ends with the expected suffix.
    pub fn end_with(self, actual: &str, expected: &str) -> (r: Result<Self, ImmediateFailure>)
        ensures
            r is Ok <==> text::spec_ends_with(actual@, expected@),
            r is Ok ==> spec_recorded(
                self@,
                r->Ok_0@,
                true,
                ASSERT_FINNISH@,
                ASSERT_SHOULD_BE_FINNISH@,
            ),
            r is Ok ==> r->Ok_0.spec_sleep() == self.spec_sleep(),
            r is Err ==> fails_with(r->Err_0, ASSERT_FINNISH@, ASSERT_SHOULD_BE_FINNISH@),
    {
        let start = clock::clock_now();
        let t = text::str_ends(actual, expected);
        let nanos = clock::duration_nanos(&clock::elapsed_since(&start));
        self.record(t, nanos, ASSERT_FINNISH, ASSERT_SHOULD_BE_FINNISH)
    }

    /// Check that the path exists on disk right now.
    pub fn exists_path(self, p: &str) -> (r: Result<Self, ImmediateFailure>)
        ensures
            r is Ok ==> spec_recorded(
                self@,
                r->Ok_0@,
                true,
                ASSERT_EXISTS@,
                ASSERT_SHOULD_BE_EXISTS@,
            ),
            r is Ok ==> r->Ok_0.spec_sleep() == self.spec_sleep(),
            r is Err ==> fails_with(r->Err_0, ASSERT_EXISTS@, ASSERT_SHOULD_BE_EXISTS@),
    {
        let start = clock::clock_now();
        let t = paths::path_exists(p);
        let nanos = clock::duration_nanos(&clock::elapsed_since(&start));
        self.record(t, nanos, ASSERT_EXISTS, ASSERT_SHOULD_BE_EXISTS)
    }

    /// Check that the path is absent from disk right now.
    pub fn not_exists(self, p: &str) -> (r: Result<Self, ImmediateFailure>)
        ensures
            r is Ok ==> spec_recorded(
                self@,
                r->Ok_0@,
                true,
                ASSERT_NOT_EXISTS@,
                ASSERT_SHOULD_BE_NOT_EXISTS@,
            ),
            r is Ok ==> r->Ok_0.spec_sleep() == self.spec_sleep(),
            r is Err ==> fails_with(r->Err_0, ASSERT_NOT_EXISTS@, ASSERT_SHOULD_BE_NOT_EXISTS@),
    {
        let start = clock::clock_now();
        let t = !paths::path_exists(p);
        let nanos = clock::duration_nanos(&clock::elapsed_since(&start));
        self.record(t, nanos, ASSERT_NOT_EXISTS, ASSERT_SHOULD_BE_NOT_EXISTS)
    }

    /// Check that the path points to an executable file right now.
    pub fn exe(self, p: &str) -> (r: Result<Self, ImmediateFailure>)
        ensures
            r is Ok ==> spec_recorded(
                self@,
                r->Ok_0@,
                true,
                ASSERT_IS_EXECUTABLE@,
                ASSERT_SHOULD_BE_EXECUTABLE@,
            ),
            r is Ok ==> r->Ok_0.spec_sleep() == self.spec_sleep(),
            r is Err ==> fails_with(r->Err_0, ASSERT_IS_EXECUTABLE@, ASSERT_SHOULD_BE_EXECUTABLE@),
    {
        let start = clock::clock_now();
        let t = paths::path_is_executable(p);
        let nanos = clock::duration_nanos(&clock::elapsed_since(&start));
        self.record(t, nanos, ASSERT_IS_EXECUTABLE, ASSERT_SHOULD_BE_EXECUTABLE)
    }

    /// Check that the producer's result equals the expected value.
    pub fn theory<T: PartialEq, F: Fn() -> T>(self, expected: T, callback: F) -> (r: Result<
        Self,
        ImmediateFailure,
    >)
        requires
            call_requires(callback, ()),
        ensures
            r is Ok ==> spec_recorded(
                self@,
                r->Ok_0@,
                true,
                ASSERT_THEORY_IS_TRUE@,
                ASSERT_THEORY_SHOULD_BE_TRUE@,
            ),
            r is Ok ==> r->Ok_0.spec_sleep() == self.spec_sleep(),
            r is Err ==> fails_with(
                r->Err_0,
                ASSERT_THEORY_IS_TRUE@,
                ASSERT_THEORY_SHOULD_BE_TRUE@,
            ),
            exists|v: T|
                #[trigger] call_ensures(callback, (), v) && (T::obeys_eq_spec() ==> (r is Ok
                    <==> expected.eq_spec(&v))),
    {
        let start = clock::clock_now();
        let v = callback();
        let t = expected.eq(&v);
        let nanos = clock::duration_nanos(&clock::elapsed_since(&start));
        let r = self.record(t, nanos, ASSERT_THEORY_IS_TRUE, ASSERT_THEORY_SHOULD_BE_TRUE);
        proof {
            assert(call_ensures(callback, (), v) && (T::obeys_eq_spec() ==> (r is Ok
                <==> expected.eq_spec(&v))));
        }
        r
    }

    /// Check that the producer's result equals the expected value.
    pub fn theorem<T: PartialEq, F: Fn() -> T>(self, expected: T, actual: F) -> (r: Result<
        Self,
        ImmediateFailure,
    >)
        requires
            call_requires(actual, ()),
        ensures
            r is Ok ==> spec_recorded(self@, r->Ok_0@, true, THEORY_IS_TRUE@, THEORY_IS_FALSE@),
            r is Ok ==> r->Ok_0.spec_sleep() == self.spec_sleep(),
            r is Err ==> fails_with(r->Err_0, THEORY_IS_TRUE@, THEORY_IS_FALSE@),
            exists|v: T|
                #[trigger] call_ensures(actual, (), v) && (T::obeys_eq_spec() ==> (r is Ok
                    <==> expected.eq_spec(&v))),
    {
        let start = clock::clock_now();
        let v = actual();
        let t = expected.eq(&v);
        let nanos = clock::duration_nanos(&clock::elapsed_since(&start));
        let r = self.record(t, nanos, THEORY_IS_TRUE, THEORY_IS_FALSE);
        proof {
            assert(call_ensures(actual, (), v) && (T::obeys_eq_spec() ==> (r is Ok
                <==> expected.eq_spec(&v))));
        }
        r
    }

    /// Check that the producer comes back false: the run goes on exactly
    /// when the expected instability is observed.
    pub fn chaos<F: Fn() -> bool>(self, callback: F) -> (r: Result<Self, ImmediateFailure>)
        requires
            call_requires(callback, ()),
        ensures
            r is Ok ==> spec_recorded(
                self@,
                r->Ok_0@,
                true,
                ASSERT_THEORY_IS_FALSE@,
                ASSERT_THEORY_SHOULD_BE_FALSE@,
            ),
            r is Ok ==> r->Ok_0.spec_sleep() == self.spec_sleep(),
            r is Err ==> fails_with(
                r->Err_0,
                ASSERT_THEORY_IS_FALSE@,
                ASSERT_THEORY_SHOULD_BE_FALSE@,
            ),
            exists|v: bool| #[trigger] call_ensures(callback, (), v) && (r is Ok <==> !v),
    {
        let start = clock::clock_now();
        let v = callback();
        let nanos = clock::duration_nanos(&clock::elapsed_since(&start));
        let r = self.record(!v, nanos, ASSERT_THEORY_IS_FALSE, ASSERT_THEORY_SHOULD_BE_FALSE);
        proof {
            assert(call_ensures(callback, (), v) && (r is Ok <==> !v));
        }
        r
    }

    /// Evaluate each callback in order; the first one that comes back false
    /// aborts the run, and the ones after it are never evaluated.
    pub fn success<F: Fn() -> bool>(self, callbacks: Vec<F>) -> (r: Result<
        Self,
        ImmediateFailure,
    >)
        requires
            forall|i: int|
                0 <= i < callbacks@.len() ==> call_requires(#[trigger] callbacks@[i], ()),
        ensures
            r is Ok ==> r->Ok_0@.len() == self@.len() + callbacks@.len(),
            r is Ok ==> r->Ok_0@.subrange(0, self@.len() as int) == self@,
            r is Ok ==> forall|i: int|
                0 <= i < callbacks@.len() ==> is_record(
                    #[trigger] r->Ok_0@[self@.len() + i],
                    true,
                    IS_SUCCESS@,
                    IS_FAIL@,
                ) && call_ensures(callbacks@[i], (), true),
            r is Ok ==> r->Ok_0.spec_sleep() == self.spec_sleep(),
            r is Err ==> fails_with(r->Err_0, IS_SUCCESS@, IS_FAIL@) && exists|k: int|
                0 <= k < callbacks@.len() && #[trigger] call_ensures(callbacks@[k], (), false),
    {
        let ghost pre = self@;
        let ghost pace = self.spec_sleep();
        let mut u = self;
        let mut i: usize = 0;
        while i < callbacks.len()
            invariant
                forall|k: int|
                    0 <= k < callbacks@.len() ==> call_requires(#[trigger] callbacks@[k], ()),
                i <= callbacks.len(),
                u@.len() == pre.len() + i as int,
                u@.subrange(0, pre.len() as int) == pre,
                forall|k: int|
                    0 <= k < i as int ==> is_record(
                        #[trigger] u@[pre.len() + k],
                        true,
                        IS_SUCCESS@,
                        IS_FAIL@,
                    ),
                forall|k: int|
                    0 <= k < i as int ==> #[trigger] call_ensures(callbacks@[k], (), true),
                u.spec_sleep() == pace,
            decreases callbacks.len() - i,
        {
            let c = &callbacks[i];
            let start = clock::clock_now();
            let v = c();
            let nanos = clock::duration_nanos(&clock::elapsed_since(&start));
            let ghost before = u@;
            u = match u.record(v, nanos, IS_SUCCESS, IS_FAIL) {
                Ok(next) => next,
                Err(f) => {
                    return Err(f);
                },
            };
            proof {
                assert(u@.subrange(0, pre.len() as int) =~= pre);
                assert forall|k: int| 0 <= k < i as int implies #[trigger] u@[pre.len() + k]
                    == before[pre.len() + k] by {
                    assert(u@[pre.len() + k] == before.push(u@.last())[pre.len() + k]);
                }
                assert(u@[pre.len() + i as int] == u@.last());
            }
            i += 1;
        }
        Ok(u)
    }

    /// Evaluate each callback in order; the first one that comes back true
    /// aborts the run, and the ones after it are never evaluated.
    pub fn fail<F: Fn() -> bool>(self, callbacks: Vec<F>) -> (r: Result<Self, ImmediateFailure>)
        requires
            forall|i: int|
                0 <= i < callbacks@.len() ==> call_requires(#[trigger] callbacks@[i], ()),
        ensures
            r is Ok ==> r->Ok_0@.len() == self@.len() + callbacks@.len(),
            r is Ok ==> r->Ok_0@.subrange(0, self@.len() as int) == self@,
            r is Ok ==> forall|i: int|
                0 <= i < callbacks@.len() ==> is_record(
                    #[trigger] r->Ok_0@[self@.len() + i],
                    true,
                    ASSERT_FAIL@,
                    ASSERT_SHOULD_BE_FAIL@,
                ) && call_ensures(callbacks@[i], (), false),
            r is Ok ==> r->Ok_0.spec_sleep() == self.spec_sleep(),
            r is Err ==> fails_with(r->Err_0, ASSERT_FAIL@, ASSERT_SHOULD_BE_FAIL@) && exists|
                k: int,
            |
                0 <= k < callbacks@.len() && #[trigger] call_ensures(callbacks@[k], (), true),
    {
        let ghost pre = self@;
        let ghost pace = self.spec_sleep();
        let mut u = self;
        let mut i: usize = 0;
        while i < callbacks.len()
            invariant
                forall|k: int|
                    0 <= k < callbacks@.len() ==> call_requires(#[trigger] callbacks@[k], ()),
                i <= callbacks.len(),
                u@.len() == pre.len() + i as int,
                u@.subrange(0, pre.len() as int) == pre,
                forall|k: int|
                    0 <= k < i as int ==> is_record(
                        #[trigger] u@[pre.len() + k],
                        true,
                        ASSERT_FAIL@,
                        ASSERT_SHOULD_BE_FAIL@,
                    ),
                forall|k: int|
                    0 <= k < i as int ==> #[trigger] call_ensures(callbacks@[k], (), false),
                u.spec_sleep() == pace,
            decreases callbacks.len() - i,
        {
            let c = &callbacks[i];
            let start = clock::clock_now();
            let v = c();
            let nanos = clock::duration_nanos(&clock::elapsed_since(&start));
            let ghost before = u@;
            u = match u.record(!v, nanos, ASSERT_FAIL, ASSERT_SHOULD_BE_FAIL) {
                Ok(next) => next,
                Err(f) => {
                    return Err(f);
                },
            };
            proof {
                assert(u@.subrange(0, pre.len() as int) =~= pre);
                assert forall|k: int| 0 <= k < i as int implies #[trigger] u@[pre.len() + k] == before[pre.len()
                    + k] by {
                    assert(u@[pre.len() + k] == before.push(u@.last())[pre.len() + k]);
                }
                assert(u@[pre.len() + i as int] == u@.last());
            }
            i += 1;
        }
        Ok(u)
    }

    /// Check that the pattern matches every value. An invalid pattern is a
    /// misconfigured check; the first value the pattern does not match
    /// aborts the run.
    pub fn matches(self, pattern: &str, values: Vec<String>) -> (r: Result<Self, CheckError>)
        ensures
            !regex_valid(pattern@) <==> r == Err::<Self, CheckError>(
                CheckError::Setup(SetupError::InvalidPattern),
            ),
            r is Ok <==> regex_valid(pattern@) && (forall|i: int|
                0 <= i < values@.len() ==> regex_accepts(pattern@, #[trigger] values@[i]@)),
            r is Ok ==> r->Ok_0@.len() == self@.len() + values@.len(),
            r is Ok ==> r->Ok_0@.subrange(0, self@.len() as int) == self@,
            r is Ok ==> forall|i: int|
                0 <= i < values@.len() ==> is_record(
                    #[trigger] r->Ok_0@[self@.len() + i],
                    true,
                    ASSERT_MATCH@,
                    ASSERT_SHOULD_MATCH@,
                ),
            r is Ok ==> r->Ok_0.spec_sleep() == self.spec_sleep(),
            regex_valid(pattern@) && (exists|i: int|
                0 <= i < values@.len() && !regex_accepts(pattern@, #[trigger] values@[i]@)) ==> (r
                matches Err(CheckError::Failed(f)) && fails_with(
                f,
                ASSERT_MATCH@,
                ASSERT_SHOULD_MATCH@,
            )),
    {
        if !crate::pattern::regex_check(pattern) {
            return Err(CheckError::Setup(SetupError::InvalidPattern));
        }
        let ghost pre = self@;
        let ghost pace = self.spec_sleep();
        let mut u = self;
        let mut i: usize = 0;
        while i < values.len()
            invariant
                regex_valid(pattern@),
                i <= values.len(),
                u@.len() == pre.len() + i as int,
                u@.subrange(0, pre.len() as int) == pre,
                forall|k: int|
                    0 <= k < i as int ==> is_record(
                        #[trigger] u@[pre.len() + k],
                        true,
                        ASSERT_MATCH@,
                        ASSERT_SHOULD_MATCH@,
                    ),
                forall|k: int|
                    0 <= k < i as int ==> regex_accepts(pattern@, #[trigger] values@[k]@),
                u.spec_sleep() == pace,
            decreases values.len() - i,
        {
            let start = clock::clock_now();
            let t = match crate::pattern::regex_is_match(pattern, values[i].as_str()) {
                Some(t) => t,
                None => false,
            };
            let nanos = clock::duration_nanos(&clock::elapsed_since(&start));
            let ghost before = u@;
            u = match u.record(t, nanos, ASSERT_MATCH, ASSERT_SHOULD_MATCH) {
                Ok(next) => next,
                Err(f) => {
                    return Err(CheckError::Failed(f));
                },
            };
            proof {
                assert(u@.subrange(0, pre.len() as int) =~= pre);
                assert forall|k: int| 0 <= k < i as int implies #[trigger] u@[pre.len() + k] == before[pre.len()
                    + k] by {
                    assert(u@[pre.len() + k] == before.push(u@.last())[pre.len() + k]);
                }
                assert(u@[pre.len() + i as int] == u@.last());
            }
            i += 1;
        }
        Ok(u)
    }

    /// Check, for each value, that the given capture group of the pattern's
    /// first match in `x` equals it. An invalid pattern, a pattern that never
    /// matches, or a missing group is a misconfigured check; the first value
    /// the group's text differs from aborts the run.
    pub fn capture(self, pattern: &str, x: &str, key: usize, values: Vec<String>) -> (r: Result<
        Self,
        CheckError,
    >)
        ensures
            !regex_valid(pattern@) <==> r == Err::<Self, CheckError>(
                CheckError::Setup(SetupError::InvalidPattern),
            ),
            regex_valid(pattern@) && regex_group(pattern@, x@, key as int) is None ==> r == Err::<
                Self,
                CheckError,
            >(CheckError::Setup(SetupError::MissingCapture)),
            r is Ok <==> regex_valid(pattern@) && regex_group(pattern@, x@, key as int) is Some
                && (forall|i: int|
                0 <= i < values@.len() ==> regex_group(pattern@, x@, key as int)->0
                    == #[trigger] values@[i]@),
            r is Ok ==> r->Ok_0@.len() == self@.len() + values@.len(),
            r is Ok ==> r->Ok_0@.subrange(0, self@.len() as int) == self@,
            r is Ok ==> forall|i: int|
                0 <= i < values@.len() ==> is_record(
                    #[trigger] r->Ok_0@[self@.len() + i],
                    true,
                    ASSERT_MATCH@,
                    ASSERT_SHOULD_MATCH@,
                ),
            r is Ok ==> r->Ok_0.spec_sleep() == self.spec_sleep(),
            regex_valid(pattern@) && regex_group(pattern@, x@, key as int) is Some && (exists|
                i: int,
            |
                0 <= i < values@.len() && regex_group(pattern@, x@, key as int)->0
                    != #[trigger] values@[i]@) ==> (r matches Err(CheckError::Failed(f))
                && fails_with(f, ASSERT_MATCH@, ASSERT_SHOULD_MATCH@)),
    {
        let group = match crate::pattern::regex_capture_group(pattern, x, key) {
            None => {
                return Err(CheckError::Setup(SetupError::InvalidPattern));
            },
            Some(None) => {
                return Err(CheckError::Setup(SetupError::MissingCapture));
            },
            Some(Some(g)) => g,
        };
        let ghost pre = self@;
        let ghost pace = self.spec_sleep();
        let mut u = self;
        let mut i: usize = 0;
        while i < values.len()
            invariant
                regex_valid(pattern@),
                regex_group(pattern@, x@, key as int) is Some,
                group@ == regex_group(pattern@, x@, key as int)->0,
                i <= values.len(),
                u@.len() == pre.len() + i as int,
                u@.subrange(0, pre.len() as int) == pre,
                forall|k: int|
                    0 <= k < i as int ==> is_record(
                        #[trigger] u@[pre.len() + k],
                        true,
                        ASSERT_MATCH@,
                        ASSERT_SHOULD_MATCH@,
                    ),
                forall|k: int|
                    0 <= k < i as int ==> regex_group(pattern@, x@, key as int)->0
                        == #[trigger] values@[k]@,
                u.spec_sleep() == pace,
            decreases values.len() - i,
        {
            let start = clock::clock_now();
            let t = group.eq(&values[i]);
            let nanos = clock::duration_nanos(&clock::elapsed_since(&start));
            let ghost before = u@;
            u = match u.record(t, nanos, ASSERT_MATCH, ASSERT_SHOULD_MATCH) {
                Ok(next) => next,
                Err(f) => {
                    return Err(CheckError::Failed(f));
                },
            };
            proof {
                assert(u@.subrange(0, pre.len() as int) =~= pre);
                assert forall|k: int| 0 <= k < i as int implies #[trigger] u@[pre.len() + k]
                    == before[pre.len() + k] by {
                    assert(u@[pre.len() + k] == before.push(u@.last())[pre.len() + k]);
                }
                assert(u@[pre.len() + i as int] == u@.last());
            }
            i += 1;
        }
        Ok(u)
    }

    /// How many checks were recorded so far.
    pub fn len(&self) -> (r: usize)
        ensures
            r as nat == self@.len(),
    {
        self.records.len()
    }

    /// Render the report: one line per recorded check in original order,
    /// then the total. Since any failing check already aborted the run, the
    /// report never holds a failure and its verdict is always a pass.
    pub fn end(&self) -> (r: Report)
        ensures
            r@ == report_of(
                Seq::<char>::empty(),
                Seq::<char>::empty(),
                self@,
                self.spec_sleep() as nat,
            ),
            r@.failures == 0,
    {
        proof {
            use_type_invariant(self);
            crate::records::lemma_counts_partition(self@);
        }
        let mut lines: Vec<CheckRecord> = Vec::new();
        let mut i: usize = 0;
        while i < self.records.len()
            invariant
                i <= self.records.len(),
                lines.deep_view() == self@.subrange(0, i as int),
            decreases self.records.len() - i,
        {
            let rec = &self.records[i];
            let ghost prev = lines.deep_view();
            let ghost prev_raw = lines@;
            lines.push(CheckRecord::new(rec.passed(), rec.message().clone(), rec.elapsed_nanos()));
            proof {
                assert(vstd::std_specs::vec::spec_vec_len(&self.records) == self.records@.len());
                assert(i < self@.len());
                assert(lines.deep_view().last() == self@[i as int]);
                assert(prev.len() == i as int);
                assert(prev_raw.len() == i as int);
                assert(lines.deep_view().len() == i as int + 1);
                assert(lines.deep_view()[i as int] == self@[i as int]);
                assert forall|j: int| 0 <= j < i as int implies lines.deep_view()[j] == self@[j] by {
                    assert(lines@[j] == prev_raw.push(lines@.last())[j]);
                    assert(lines@[j] == prev_raw[j]);
                    assert(lines.deep_view()[j] == prev[j]);
                    assert(prev[j] == self@.subrange(0, i as int)[j]);
                }
                assert(lines.deep_view() =~= self@.subrange(0, i as int + 1));
            }
            i += 1;
        }
        proof {
            assert(lines.deep_view() =~= self@);
        }
        Report {
            title: String::new(),
            description: String::new(),
            lines,
            successes: self.c,
            failures: 0,
            pace_millis: self.sleep,
        }
    }
}

/// A strict accumulator that exists never holds a failing record: any
/// failing check aborted the run instead of being recorded.
pub fn strict_no_failures(a: &Assert)
    ensures
        count_failed(a@) == 0,
        count_passed(a@) == a@.len(),
{
    proof {
        use_type_invariant(a);
        crate::records::lemma_counts_partition(a@);
    }
}

/// One check as the strict recording rule sees it: an already-evaluated
/// outcome with its wording pair and measured time.
pub ghost struct CheckView {
    pub ok: bool,
    pub success_message: Seq<char>,
    pub failure_message: Seq<char>,
    pub elapsed_nanos: nat,
}

/// The strict recording rule, folded over a sequence of checks: each passing
/// check appends its record, exactly as [`Assert::record`] does, and the
/// first failing check stops the run, leaving the records gathered so far.
pub open spec fn strict_fold(pre: Seq<RecordView>, checks: Seq<CheckView>) -> Result<
    Seq<RecordView>,
    Seq<RecordView>,
>
    decreases checks.len(),
{
    if checks.len() == 0 {
        Ok(pre)
    } else if checks[0].ok {
        strict_fold(
            pre.push(
                RecordView {
                    ok: true,
                    message: checks[0].success_message,
                    elapsed_nanos: checks[0].elapsed_nanos,
                },
            ),
            checks.drop_first(),
        )
    } else {
        Err(pre)
    }
}

/// If every check passes, the strict rule runs to the end and the run holds
/// one record per check.
pub proof fn lemma_strict_all_pass(pre: Seq<RecordView>, checks: Seq<CheckView>)
    requires
        forall|i: int| 0 <= i < checks.len() ==> (#[trigger] checks[i]).ok,
    ensures
        strict_fold(pre, checks) is Ok,
        strict_fold(pre, checks)->Ok_0.len() == pre.len() + checks.len(),
    decreases checks.len(),
{
    if checks.len() > 0 {
        let pre2 = pre.push(
            RecordView {
                ok: true,
                message: checks[0].success_message,
                elapsed_nanos: checks[0].elapsed_nanos,
            },
        );
        lemma_strict_all_pass(pre2, checks.drop_first());
    }
}

/// If the first failing check sits at position `k` (counting from zero),
/// the strict rule aborts there: exactly the `k` records of the passing
/// prefix exist when the run stops, and the checks after position `k` are
/// never reached.
pub proof fn lemma_strict_first_failure(pre: Seq<RecordView>, checks: Seq<CheckView>, k: int)
    requires
        0 <= k < checks.len(),
        !checks[k].ok,
        forall|i: int| 0 <= i < k ==> (#[trigger] checks[i]).ok,
    ensures
        strict_fold(pre, checks) is Err,
        strict_fold(pre, checks)->Err_0.len() == pre.len() + k,
    decreases k,
{
    if k > 0 {
        let pre2 = pre.push(
            RecordView {
                ok: true,
                message: checks[0].success_message,
                elapsed_nanos: checks[0].elapsed_nanos,
            },
        );
        lemma_strict_first_failure(pre2, checks.drop_first(), k - 1);
    }
}

/// The callbacks, applied in order from `a` with the strict short-circuit:
/// the first one that comes back with an error ends the run with it, and
/// `out` is what the run ends with.
pub open spec fn strict_folds_to<F: Fn(Assert) -> Result<Assert, CheckError>>(
    cbs: Seq<F>,
    a: Assert,
    out: Result<Assert, CheckError>,
) -> bool
    decreases cbs.len(),
{
    if cbs.len() == 0 {
        out == Ok::<Assert, CheckError>(a)
    } else {
        exists|step: Result<Assert, CheckError>|
            #[trigger] call_ensures(cbs[0], (a,), step) && (match step {
                Ok(m) => strict_folds_to(cbs.drop_first(), m, out),
                Err(e) => out == Err::<Assert, CheckError>(e),
            })
    }
}

/// Extending a run that has not aborted by one more callback at its end.
proof fn lemma_strict_folds_snoc<F: Fn(Assert) -> Result<Assert, CheckError>>(
    cbs: Seq<F>,
    c: F,
    a: Assert,
    m: Assert,
    step: Result<Assert, CheckError>,
)
    requires
        strict_folds_to(cbs, a, Ok::<Assert, CheckError>(m)),
        call_ensures(c, (m,), step),
    ensures
        strict_folds_to(cbs.push(c), a, step),
    decreases cbs.len(),
{
    if cbs.len() == 0 {
        assert(cbs.push(c)[0] == c);
        assert(cbs.push(c).drop_first() =~= Seq::<F>::empty());
        assert(m == a);
        assert(call_ensures(cbs.push(c)[0], (a,), step) && (match step {
            Ok(x) => strict_folds_to(cbs.push(c).drop_first(), x, step),
            Err(e1) => step == Err::<Assert, CheckError>(e1),
        }));
    } else {
        let m1 = choose|m1: Result<Assert, CheckError>|
            #[trigger] call_ensures(cbs[0], (a,), m1) && (match m1 {
                Ok(x) => strict_folds_to(cbs.drop_first(), x, Ok::<Assert, CheckError>(m)),
                Err(e1) => Ok::<Assert, CheckError>(m) == Err::<Assert, CheckError>(e1),
            });
        assert(m1 is Ok);
        lemma_strict_folds_snoc(cbs.drop_first(), c, m1->Ok_0, m, step);
        assert(cbs.push(c).drop_first() =~= cbs.drop_first().push(c));
        assert(cbs.push(c)[0] == cbs[0]);
        assert(call_ensures(cbs.push(c)[0], (a,), m1) && (match m1 {
            Ok(x) => strict_folds_to(cbs.push(c).drop_first(), x, step),
            Err(e1) => step == Err::<Assert, CheckError>(e1),
        }));
    }
}

/// A run that aborted stays aborted, whatever callbacks follow.
proof fn lemma_strict_folds_aborted<F: Fn(Assert) -> Result<Assert, CheckError>>(
    cbs: Seq<F>,
    j: int,
    a: Assert,
    e: CheckError,
)
    requires
        0 <= j <= cbs.len(),
        strict_folds_to(cbs.subrange(0, j), a, Err::<Assert, CheckError>(e)),
    ensures
        strict_folds_to(cbs, a, Err::<Assert, CheckError>(e)),
    decreases cbs.len() - j,
{
    if j == cbs.len() {
        assert(cbs.subrange(0, j) =~= cbs);
    } else {
        let s = cbs.subrange(0, j);
        let s2 = cbs.subrange(0, j + 1);
        assert(s2 =~= s.push(cbs[j]));
        lemma_strict_folds_abort_snoc(s, cbs[j], a, e);
        lemma_strict_folds_aborted(cbs, j + 1, a, e);
    }
}

/// Extending an aborted run by one more callback changes nothing.
proof fn lemma_strict_folds_abort_snoc<F: Fn(Assert) -> Result<Assert, CheckError>>(
    cbs: Seq<F>,
    c: F,
    a: Assert,
    e: CheckError,
)
    requires
        strict_folds_to(cbs, a, Err::<Assert, CheckError>(e)),
    ensures
        strict_folds_to(cbs.push(c), a, Err::<Assert, CheckError>(e)),
    decreases cbs.len(),
{
    if cbs.len() == 0 {
        assert(false);
    } else {
        let m1 = choose|m1: Result<Assert, CheckError>|
            #[trigger] call_ensures(cbs[0], (a,), m1) && (match m1 {
                Ok(x) => strict_folds_to(
                    cbs.drop_first(),
                    x,
                    Err::<Assert, CheckError>(e),
                ),
                Err(e1) => Err::<Assert, CheckError>(e) == Err::<Assert, CheckError>(e1),
            });
        if m1 is Ok {
            lemma_strict_folds_abort_snoc(cbs.drop_first(), c, m1->Ok_0, e);
        }
        assert(cbs.push(c).drop_first() =~= cbs.drop_first().push(c));
        assert(cbs.push(c)[0] == cbs[0]);
        assert(call_ensures(cbs.push(c)[0], (a,), m1));
    }
}

impl Assert {
    /// Run a whole strict suite: apply the check functions in order to a
    /// fresh accumulator, stopping at the first error, and render the
    /// report under the given title if every check passed.
    pub fn it<F: Fn(Assert) -> Result<Assert, CheckError>>(
        title: &str,
        description: &str,
        sleep_time: u64,
        callbacks: Vec<F>,
    ) -> (r: Result<Report, CheckError>)
        requires
            forall|i: int, a: Assert|
                0 <= i < callbacks@.len() ==> #[trigger] call_requires(callbacks@[i], (a,)),
        ensures
            r is Ok ==> exists|z: Assert, u: Assert|
                {
                    &&& z@ == Seq::<RecordView>::empty()
                    &&& z.spec_sleep() == sleep_time
                    &&& #[trigger] strict_folds_to(callbacks@, z, Ok::<Assert, CheckError>(u))
                    &&& r->Ok_0@ == report_of(title@, description@, u@, u.spec_sleep() as nat)
                    &&& r->Ok_0@.failures == 0
                },
            r matches Err(e) ==> exists|z: Assert|
                {
                    &&& z@ == Seq::<RecordView>::empty()
                    &&& z.spec_sleep() == sleep_time
                    &&& #[trigger] strict_folds_to(callbacks@, z, Err::<Assert, CheckError>(e))
                },
    {
        let mut acc = Assert::new(sleep_time);
        let ghost z = acc;
        let mut i: usize = 0;
        while i < callbacks.len()
            invariant
                forall|k: int, a: Assert|
                    0 <= k < callbacks@.len() ==> #[trigger] call_requires(callbacks@[k], (a,)),
                i <= callbacks.len(),
                z@ == Seq::<RecordView>::empty(),
                z.spec_sleep() == sleep_time,
                strict_folds_to(callbacks@.subrange(0, i as int), z, Ok::<Assert, CheckError>(acc)),
            decreases callbacks.len() - i,
        {
            let ghost prev = acc;
            let c = &callbacks[i];
            match c(acc) {
                Ok(next) => {
                    acc = next;
                    proof {
                        lemma_strict_folds_snoc(
                            callbacks@.subrange(0, i as int),
                            callbacks@[i as int],
                            z,
                            prev,
                            Ok::<Assert, CheckError>(acc),
                        );
                        assert(callbacks@.subrange(0, i as int).push(callbacks@[i as int])
                            =~= callbacks@.subrange(0, i as int + 1));
                    }
                },
                Err(e) => {
                    proof {
                        lemma_strict_folds_snoc(
                            callbacks@.subrange(0, i as int),
                            callbacks@[i as int],
                            z,
                            prev,
                            Err::<Assert, CheckError>(e),
                        );
                        assert(callbacks@.subrange(0, i as int).push(callbacks@[i as int])
                            =~= callbacks@.subrange(0, i as int + 1));
                        lemma_strict_folds_aborted(callbacks@, i as int + 1, z, e);
                        assert(z@ == Seq::<RecordView>::empty() && z.spec_sleep() == sleep_time
                            && strict_folds_to(callbacks@, z, Err::<Assert, CheckError>(e)));
                    }
                    return Err(e);
                },
            }
            i += 1;
        }
        proof {
            assert(callbacks@.subrange(0, callbacks@.len() as int) =~= callbacks@);
        }
        let mut rep = acc.end();
        rep.title = title.to_owned();
        rep.description = description.to_owned();
        Ok(rep)
    }
}

} // verus!
