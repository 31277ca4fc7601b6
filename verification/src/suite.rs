//! The test suite: a chain of fail-fast checks with per-check hooks.
//!
//! The suite's only state is its two hooks. Every check runs the hooks
//! around it and either hands the suite on unchanged or stops the chain
//! with an [`ImmediateFailure`] carrying the check's wording pair.

use vstd::prelude::*;
use vstd::std_specs::cmp::{PartialEqSpec, PartialOrdIs, PartialOrdSpec};

use crate::errors::ImmediateFailure;
use crate::output::{
    ASSERT_LENGTH_EQUALS, ASSERT_LENGTH_UN0EQUALS, IS_CONTAINS, IS_EQUALS, IS_EXISTS, IS_INFERIOR,
    IS_KO, IS_NOT_CONTAINS, IS_NOT_EXISTS, IS_OK, IS_SUPERIOR, IS_UNEQUALS, THEORY_IS_FALSE,
    THEORY_IS_TRUE,
};
use crate::paths;
use crate::text;

verus! {

broadcast use vstd::std_specs::vec::group_vec_axioms;

/// The failure carries exactly this check's paired wordings.
pub open spec fn suite_fails_with(
    f: ImmediateFailure,
    success_message: Seq<char>,
    failure_message: Seq<char>,
) -> bool {
    f.success_message@ == success_message && f.failure_message@ == failure_message
}

/// A fail-fast chain of checks, with a hook run before and after each one.
#[derive(Clone, Copy)]
pub struct Suite<B: Fn(), A: Fn()> {
    before_each: Option<B>,
    after_each: Option<A>,
}

impl<B: Fn(), A: Fn()> Suite<B, A> {
    /// The hook run before each check, if any.
    pub closed spec fn spec_before(self) -> Option<B> {
        self.before_each
    }

    /// The hook run after each passing check, if any.
    pub closed spec fn spec_after(self) -> Option<A> {
        self.after_each
    }

    /// Both hooks can be called.
    pub open spec fn hooks_callable(self) -> bool {
        &&& (self.spec_before() matches Some(b) ==> call_requires(b, ()))
        &&& (self.spec_after() matches Some(a) ==> call_requires(a, ()))
    }

    /// A suite that runs the given hooks around each of its checks.
    pub fn new(before_each: Option<B>, after_each: Option<A>) -> (r: Self)
        ensures
            r.spec_before() == before_each,
            r.spec_after() == after_each,
    {
        Suite { before_each, after_each }
    }

    /// Run one already-evaluated check between the hooks. A failing check
    /// stops the chain with the check's wording pair; the hook that follows
    /// a check only runs when it passed.
    pub fn run(self, test: bool, success: &str, error: &str) -> (r: Result<Self, ImmediateFailure>)
        requires
            self.hooks_callable(),
        ensures
            r is Ok <==> test,
            test ==> r->Ok_0 == self,
            !test ==> suite_fails_with(r->Err_0, success@, error@),
    {
        if let Some(b) = &self.before_each {
            b();
        }
        if !test {
            return Err(ImmediateFailure::new(success.to_owned(), error.to_owned()));
        }
        if let Some(a) = &self.after_each {
            a();
        }
        Ok(self)
    }

    /// The end of a chain that was not stopped: every check before it
    /// passed, so ending always succeeds.
    pub fn end(&mut self) -> (r: Result<(), ImmediateFailure>)
        ensures
            r is Ok,
            *final(self) == *old(self),
    {
        Ok(())
    }

    /// Check that the two values are equal, by their own equality.
    pub fn eq<X: PartialEq>(self, actual: &X, expected: &X) -> (r: Result<Self, ImmediateFailure>)
        requires
            self.hooks_callable(),
        ensures
            r is Ok ==> r->Ok_0 == self,
            r is Err ==> suite_fails_with(r->Err_0, IS_EQUALS@, IS_UNEQUALS@),
            X::obeys_eq_spec() ==> (r is Ok <==> actual.eq_spec(expected)),
    {
        self.run(actual.eq(expected), IS_EQUALS, IS_UNEQUALS)
    }

    /// Check that the two values differ, by their own equality.
    pub fn ne<X: PartialEq>(self, actual: &X, expected: &X) -> (r: Result<Self, ImmediateFailure>)
        requires
            self.hooks_callable(),
        ensures
            r is Ok ==> r->Ok_0 == self,
            r is Err ==> suite_fails_with(r->Err_0, IS_UNEQUALS@, IS_EQUALS@),
            X::obeys_eq_spec() ==> (r is Ok <==> !actual.eq_spec(expected)),
    {
        self.run(actual.ne(expected), IS_UNEQUALS, IS_EQUALS)
    }

    /// Check that the result is an `Ok`.
    pub fn ok<X, Y>(self, a: &Result<X, Y>) -> (r: Result<Self, ImmediateFailure>)
        requires
            self.hooks_callable(),
        ensures
            r is Ok <==> a is Ok,
            r is Ok ==> r->Ok_0 == self,
            r is Err ==> suite_fails_with(r->Err_0, IS_OK@, IS_KO@),
    {
        self.run(a.is_ok(), IS_OK, IS_KO)
    }

    /// Check that the result is an `Err`.
    pub fn ko<X, Y>(self, a: &Result<X, Y>) -> (r: Result<Self, ImmediateFailure>)
        requires
            self.hooks_callable(),
        ensures
            r is Ok <==> a is Err,
            r is Ok ==> r->Ok_0 == self,
            r is Err ==> suite_fails_with(r->Err_0, IS_KO@, IS_OK@),
    {
        self.run(a.is_err(), IS_KO, IS_OK)
    }

    /// Check that the vector has exactly the expected length.
    pub fn len<X>(self, actual: &Vec<X>, expected: &usize) -> (r: Result<Self, ImmediateFailure>)
        requires
            self.hooks_callable(),
        ensures
            r is Ok <==> actual@.len() == *expected,
            r is Ok ==> r->Ok_0 == self,
            r is Err ==> suite_fails_with(r->Err_0, ASSERT_LENGTH_EQUALS@, ASSERT_LENGTH_UN0EQUALS@),
    {
        self.run(actual.len() == *expected, ASSERT_LENGTH_EQUALS, ASSERT_LENGTH_UN0EQUALS)
    }

    /// Check that `actual` is strictly greater than `expected`.
    pub fn gt<X: PartialOrd>(self, actual: &X, expected: &X) -> (r: Result<Self, ImmediateFailure>)
        requires
            self.hooks_callable(),
        ensures
            r is Ok ==> r->Ok_0 == self,
            r is Err ==> suite_fails_with(r->Err_0, IS_SUPERIOR@, IS_INFERIOR@),
            X::obeys_partial_cmp_spec() ==> (r is Ok <==> actual.is_gt(expected)),
    {
        self.run(actual.gt(expected), IS_SUPERIOR, IS_INFERIOR)
    }

    /// Check that `actual` is greater than or equal to `expected`.
    pub fn ge<X: PartialOrd>(self, actual: &X, expected: &X) -> (r: Result<Self, ImmediateFailure>)
        requires
            self.hooks_callable(),
        ensures
            r is Ok ==> r->Ok_0 == self,
            r is Err ==> suite_fails_with(r->Err_0, IS_SUPERIOR@, IS_INFERIOR@),
            X::obeys_partial_cmp_spec() ==> (r is Ok <==> actual.is_ge(expected)),
    {
        self.run(actual.ge(expected), IS_SUPERIOR, IS_INFERIOR)
    }

    /// Check that `actual` is less than or equal to `expected`.
    pub fn le<X: PartialOrd>(self, actual: &X, expected: &X) -> (r: Result<Self, ImmediateFailure>)
        requires
            self.hooks_callable(),
        ensures
            r is Ok ==> r->Ok_0 == self,
            r is Err ==> suite_fails_with(r->Err_0, IS_INFERIOR@, IS_SUPERIOR@),
            X::obeys_partial_cmp_spec() ==> (r is Ok <==> actual.is_le(expected)),
    {
        self.run(actual.le(expected), IS_INFERIOR, IS_SUPERIOR)
    }

    /// Check that `actual` is strictly less than `expected`.
    pub fn lt<X: PartialOrd>(self, actual: &X, expected: &X) -> (r: Result<Self, ImmediateFailure>)
        requires
            self.hooks_callable(),
        ensures
            r is Ok ==> r->Ok_0 == self,
            r is Err ==> suite_fails_with(r->Err_0, IS_INFERIOR@, IS_SUPERIOR@),
            X::obeys_partial_cmp_spec() ==> (r is Ok <==> actual.is_lt(expected)),
    {
        self.run(actual.lt(expected), IS_INFERIOR, IS_SUPERIOR)
    }

    /// Check that the string contains the substring.
    pub fn str_contains(self, actual: &str, expected: &str) -> (r: Result<Self, ImmediateFailure>)
        requires
            self.hooks_callable(),
        ensures
            r is Ok <==> text::spec_contains(actual@, expected@),
            r is Ok ==> r->Ok_0 == self,
            r is Err ==> suite_fails_with(r->Err_0, IS_CONTAINS@, IS_NOT_CONTAINS@),
    {
        self.run(text::str_has(actual, expected), IS_CONTAINS, IS_NOT_CONTAINS)
    }

    /// Check that the string does not contain the substring.
    pub fn str_not_contains(self, actual: &str, expected: &str) -> (r: Result<
        Self,
        ImmediateFailure,
    >)
        requires
            self.hooks_callable(),
        ensures
            r is Ok <==> !text::spec_contains(actual@, expected@),
            r is Ok ==> r->Ok_0 == self,
            r is Err ==> suite_fails_with(r->Err_0, IS_NOT_CONTAINS@, IS_CONTAINS@),
    {
        self.run(!text::str_has(actual, expected), IS_NOT_CONTAINS, IS_CONTAINS)
    }

    /// Check that the path's existence on disk matches the expectation.
    pub fn path_exists(self, actual: &str, expected: bool) -> (r: Result<Self, ImmediateFailure>)
        requires
            self.hooks_callable(),
        ensures
            r is Ok ==> r->Ok_0 == self,
            r is Err ==> suite_fails_with(r->Err_0, IS_OK@, IS_KO@),
    {
        self.run(paths::path_exists(actual) == expected, IS_OK, IS_KO)
    }

    /// Check that the path exists on disk right now.
    pub fn exists_path(self, actual: &str) -> (r: Result<Self, ImmediateFailure>)
        requires
            self.hooks_callable(),
        ensures
            r is Ok ==> r->Ok_0 == self,
            r is Err ==> suite_fails_with(r->Err_0, IS_EXISTS@, IS_NOT_EXISTS@),
    {
        self.run(paths::path_exists(actual), IS_EXISTS, IS_NOT_EXISTS)
    }

    /// Check that the callback, fed `x`, comes back with the expected value.
    pub fn response<X: PartialEq, F: Fn(X) -> X>(
        self,
        title: &str,
        description: &str,
        c: F,
        x: X,
        expected: &X,
    ) -> (r: Result<Self, ImmediateFailure>)
        requires
            self.hooks_callable(),
            call_requires(c, (x,)),
        ensures
            r is Ok ==> r->Ok_0 == self,
            r is Err ==> suite_fails_with(r->Err_0, IS_EQUALS@, IS_UNEQUALS@),
            exists|v: X|
                #[trigger] call_ensures(c, (x,), v) && (X::obeys_eq_spec() ==> (r is Ok
                    <==> v.eq_spec(expected))),
    {
        let v = c(x);
        let r = self.run(v.eq(expected), IS_EQUALS, IS_UNEQUALS);
        proof {
            assert(call_ensures(c, (x,), v) && (X::obeys_eq_spec() ==> (r is Ok <==> v.eq_spec(
                expected,
            ))));
        }
        r
    }

    /// Check that the producer comes back with the expected value.
    pub fn theorem<X: PartialEq, F: Fn() -> X>(
        self,
        title: &str,
        description: &str,
        c: F,
        expected: &X,
    ) -> (r: Result<Self, ImmediateFailure>)
        requires
            self.hooks_callable(),
            call_requires(c, ()),
        ensures
            r is Ok ==> r->Ok_0 == self,
            r is Err ==> suite_fails_with(r->Err_0, IS_OK@, IS_KO@),
            exists|v: X|
                #[trigger] call_ensures(c, (), v) && (X::obeys_eq_spec() ==> (r is Ok
                    <==> v.eq_spec(expected))),
    {
        let v = c();
        let r = self.run(v.eq(expected), IS_OK, IS_KO);
        proof {
            assert(call_ensures(c, (), v) && (X::obeys_eq_spec() ==> (r is Ok <==> v.eq_spec(
                expected,
            ))));
        }
        r
    }

    /// Check that the already-evaluated value equals the expected one.
    pub fn theory<X: PartialEq>(
        self,
        title: &str,
        description: &str,
        callback: &X,
        expected: &X,
    ) -> (r: Result<Self, ImmediateFailure>)
        requires
            self.hooks_callable(),
        ensures
            r is Ok ==> r->Ok_0 == self,
            r is Err ==> suite_fails_with(r->Err_0, THEORY_IS_TRUE@, THEORY_IS_FALSE@),
            X::obeys_eq_spec() ==> (r is Ok <==> callback.eq_spec(expected)),
    {
        self.run(callback.eq(expected), THEORY_IS_TRUE, THEORY_IS_FALSE)
    }

    /// Check that the producer comes back with anything but the expected
    /// value.
    pub fn chaos<X: PartialEq, F: Fn() -> X>(
        self,
        title: &str,
        description: &str,
        c: F,
        expected: &X,
    ) -> (r: Result<Self, ImmediateFailure>)
        requires
            self.hooks_callable(),
            call_requires(c, ()),
        ensures
            r is Ok ==> r->Ok_0 == self,
            r is Err ==> suite_fails_with(r->Err_0, THEORY_IS_TRUE@, THEORY_IS_FALSE@),
            exists|v: X|
                #[trigger] call_ensures(c, (), v) && (X::obeys_eq_spec() ==> (r is Ok
                    <==> !v.eq_spec(expected))),
    {
        let v = c();
        let r = self.run(v.ne(expected), THEORY_IS_TRUE, THEORY_IS_FALSE);
        proof {
            assert(call_ensures(c, (), v) && (X::obeys_eq_spec() ==> (r is Ok <==> !v.eq_spec(
                expected,
            ))));
        }
        r
    }

    /// Run a named group of checks on the suite.
    pub fn group<F: Fn(Self) -> Result<Self, ImmediateFailure>>(
        self,
        title: &str,
        description: &str,
        callback: F,
    ) -> (r: Result<Self, ImmediateFailure>)
        requires
            call_requires(callback, (self,)),
        ensures
            call_ensures(callback, (self,), r),
    {
        callback(self)
    }

    /// Run the same group of checks several times over, to see that its
    /// outcome holds up; the suite itself is handed back unchanged.
    pub fn sure<F: Fn(Self) -> Result<Self, ImmediateFailure>>(
        self,
        title: &str,
        description: &str,
        callback: &F,
        x: usize,
    ) -> (r: Self) where B: Copy, A: Copy
        requires
            forall|s: Self| #[trigger] call_requires(*callback, (s,)),
        ensures
            r == self,
    {
        let mut i: usize = 0;
        while i < x
            invariant
                forall|s: Self| #[trigger] call_requires(*callback, (s,)),
            decreases x - i,
        {
            let _ = callback(self);
            i += 1;
        }
        self
    }
}

/// Start a suite: run the one-time hook, hand a fresh suite holding the
/// per-check hooks to the main callback, run the closing hook, and hand the
/// outcome back.
pub fn describe<B: Fn(), A: Fn(), BA: Fn(), AA: Fn(), F: Fn(Suite<B, A>) -> Result<
    Suite<B, A>,
    ImmediateFailure,
>>(
    title: &str,
    description: &str,
    after_all_hook: Option<AA>,
    after_each_hook: Option<A>,
    before_all_hook: Option<BA>,
    before_each_hook: Option<B>,
    main: F,
) -> (r: Result<Suite<B, A>, ImmediateFailure>)
    requires
        (before_all_hook matches Some(h) ==> call_requires(h, ())),
        (after_all_hook matches Some(h) ==> call_requires(h, ())),
        forall|s: Suite<B, A>| #[trigger] call_requires(main, (s,)),
    ensures
        exists|s: Suite<B, A>|
            s.spec_before() == before_each_hook && s.spec_after() == after_each_hook
                && #[trigger] call_ensures(main, (s,), r),
{
    if let Some(h) = &before_all_hook {
        h();
    }
    let start = Suite::new(before_each_hook, after_each_hook);
    let ghost s0 = start;
    let data = main(start);
    if let Some(h) = &after_all_hook {
        h();
    }
    proof {
        assert(s0.spec_before() == before_each_hook && s0.spec_after() == after_each_hook
            && call_ensures(main, (s0,), data));
    }
    data
}

} // verus!
