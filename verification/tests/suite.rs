use std::cell::Cell;

use unit_testing::errors::ImmediateFailure;
use unit_testing::suite::{describe, Suite};

type S = Suite<fn(), fn()>;

fn sure(suite: S) -> Result<S, ImmediateFailure> {
    suite.eq(&4, &4)?.ne(&3, &4)
}

fn main_suite(s: S) -> Result<S, ImmediateFailure> {
    let done = s.group(
        "Check is theorem are valid",
        "The triangle must be rectangle",
        |s: S| {
            s.theorem("ab = 3; bc = 4", "ac == 5", ok, &true)?.theory(
                "ab = 8; bc = 6",
                "ac == 10",
                &is_rect(8_f32, 6_f32),
                &10_f32,
            )
        },
    )?
        .group(
            "Check is theories are valid",
            "The triangle must be rectangle",
            |s: S| {
                s.theory("ab = 3; bc = 4", "ac == 5", &is_rect(3.0_f32, 4.0_f32), &5.0_f32)
            },
        )?
        .group(
            "Check if path exist",
            "All given path must be exist on all Os",
            |s: S| {
                s.path_exists("/", true)?
                    .path_exists(".", true)?
                    .exists_path(".")?
                    .exists_path("/")
            },
        )?
        .group("Should be equals", "All values mut be equals", |s: S| {
            s.eq(&1, &1)?
                .eq(&2, &2)?
                .response(
                    "Check if the callback no add a 0 before 10",
                    "Check if f(x) => 0",
                    a,
                    10,
                    &0,
                )?
                .response(
                    "Check if the callback is dividable by 2",
                    "Check if f(x) => x pow 2 % 2 == 0",
                    b,
                    2,
                    &0,
                )?
                .response(
                    "Check if the callback is dividable by 3",
                    "Check if f(x) => x pow 2 % 3 == 0",
                    c,
                    3,
                    &0,
                )
        })?
        .group("Should be unequal", "Check if a and b are different", |s: S| {
            s.ne(&1, &2)?.ne(&3, &2)
        })?
        .group(
            "Should be math len",
            "All vec must be math the expected length",
            |s: S| s.len(&vec!["", "", ""], &3),
        )?
        .group("Should be match Ok", "Callbacks mut be return Ok", |s: S| {
            s.group("Should be divisible by 2", "x % 2 == 0", |s: S| {
                s.ok(&data(2))?.ok(&data(4))
            })?
                .group("Should be divisible by 3", "x % 3 == 0", |s: S| {
                    s.eq(&c(3).eq(&0), &true)?.eq(&c(12).eq(&0), &true)
                })
        })?
        .group("Should be match Err", "Callbacks must be return Err", |s: S| {
            s.ko(&data(5))?.ko(&data(15))
        })?
        .sure(
            "Check the persistence",
            "Check if data return always the same result",
            &sure,
            5,
        );
    Ok(done)
}

fn a(x: i32) -> i32 {
    0 * x
}

fn b(x: i32) -> i32 {
    x.pow(2) % 2
}

fn c(x: i32) -> i32 {
    x.pow(2) % 3
}

fn ok() -> bool {
    3.0_f32.hypot(4.0).eq(&5.0)
}

fn is_rect(a: f32, b: f32) -> f32 {
    a.hypot(b)
}

fn data(x: usize) -> Result<(), String> {
    if x % 2 == 0 {
        Ok(())
    } else {
        Err(String::from("not divisible by 2"))
    }
}

#[test]
fn mod_suite() {
    let outcome = describe(
        "Check the suite it test case",
        "Suite test accept no test failure, for guaranty the source code.",
        None::<fn()>,
        None::<fn()>,
        None::<fn()>,
        None::<fn()>,
        main_suite,
    );
    assert!(outcome.is_ok());
    let mut finished = outcome.unwrap();
    assert!(finished.end().is_ok());
}

#[test]
fn suite_checks_plain_values() {
    let s: S = Suite::new(None, None);
    let s = s.eq(&4, &4).unwrap();
    let s = s.ne(&3, &4).unwrap();
    let s = s.gt(&5, &2).unwrap();
    let s = s.ge(&5, &5).unwrap();
    let s = s.le(&5, &5).unwrap();
    let s = s.lt(&2, &5).unwrap();
    let s = s.len(&vec![1, 2, 3], &3).unwrap();
    let s = s.str_contains("hello world", "lo w").unwrap();
    let s = s.str_not_contains("hello world", "zzz").unwrap();
    assert!(s.eq(&1, &2).is_err());
}

#[test]
fn suite_failure_carries_the_wordings() {
    let s: S = Suite::new(None, None);
    let outcome = s.run(false, "it held", "it broke");
    match outcome {
        Ok(_) => panic!("a failing check must stop the chain"),
        Err(failure) => {
            assert_eq!(failure.success_message, "it held");
            assert_eq!(failure.failure_message, "it broke");
        },
    }
}

#[test]
fn suite_hooks_run_around_each_check() {
    let before = Cell::new(0usize);
    let after = Cell::new(0usize);
    let s = Suite::new(Some(|| before.set(before.get() + 1)), Some(|| after.set(after.get() + 1)));
    let s = s.eq(&1, &1).unwrap();
    let outcome = s.eq(&1, &2);
    assert!(outcome.is_err());
    assert_eq!(before.get(), 2);
    assert_eq!(after.get(), 1);
}

#[test]
fn suite_results_and_groups() {
    let s: S = Suite::new(None, None);
    let good: Result<i32, String> = Ok(1);
    let bad: Result<i32, String> = Err(String::from("broken"));
    let s = s.ok(&good).unwrap();
    let s = s.ko(&bad).unwrap();
    let s = s.group("a group", "runs its checks", |s: S| s.eq(&1, &1)).unwrap();
    assert!(s.ok(&bad).is_err());
}

fn noop() {}

fn helpers_main(s: S) -> Result<S, ImmediateFailure> {
    s.eq(&"ok", &"ok")?.eq(&"0", &"0")?.eq(&2, &2)?.eq(&3, &3)
}

#[test]
fn helpers_suite() {
    let outcome = describe(
        "Suite test case",
        "Suite test case",
        Some(noop as fn()),
        Some(noop as fn()),
        Some(noop as fn()),
        Some(noop as fn()),
        helpers_main,
    );
    assert!(outcome.is_ok());
    let mut finished = outcome.unwrap();
    assert!(finished.end().is_ok());
}
