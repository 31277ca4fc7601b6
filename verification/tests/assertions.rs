use std::collections::HashSet;

use unit_testing::assertions::Assert;
use unit_testing::errors::CheckError;
use unit_testing::output::DISABLE_PROGRESS_TIME;

fn ok() -> bool {
    true
}

fn ko() -> bool {
    false
}

fn must_pass(u: Assert) -> Result<Assert, CheckError> {
    Ok(u.ok(ok())?.ko(ko())?)
}

fn must_exists(u: Assert) -> Result<Assert, CheckError> {
    Ok(u.exists_path(".")?.exists_path("/")?)
}

fn must_linux(u: Assert) -> Result<Assert, CheckError> {
    Ok(u)
}

fn must_equals(u: Assert) -> Result<Assert, CheckError> {
    Ok(u
        .eq("README.md", "README.md")?
        .eq(4, 4)?
        .eq(4.4, 4.4)?
        .eq(true, true)?
        .eq(false, false)?)
}

fn must_contains(u: Assert) -> Result<Assert, CheckError> {
    let mut v: Vec<String> = Vec::new();
    let o = Some("a".to_string());
    v.push("value".to_string());
    v.push("h".to_string());
    Ok(u
        .vec_contains(v, "h".to_string())?
        .option_contains(o, "a".to_string())?
        .str_contains("linux", "linux")?
        .hash_contains(&mut HashSet::from(["a".to_string()]), "a".to_string())?)
}

fn must_unequals(u: Assert) -> Result<Assert, CheckError> {
    Ok(u
        .ne("README.md", ".")?
        .ne(4, 6)?
        .ne(5.6, 4.4)?
        .ne(false, true)?
        .ne(false, true)?)
}

fn must_superior(u: Assert) -> Result<Assert, CheckError> {
    Ok(u.gt(1, 0)?.gt(5, 2)?)
}

fn programs(u: Assert) -> Result<Assert, CheckError> {
    Ok(u)
}

fn no_programs(u: Assert) -> Result<Assert, CheckError> {
    Ok(u)
}

fn must_inferior(u: Assert) -> Result<Assert, CheckError> {
    Ok(u.lt(10, 50)?.lt(50, 200)?)
}

fn must_between(u: Assert) -> Result<Assert, CheckError> {
    Ok(u.between(10, 5, 50)?.between(50, 10, 200)?)
}

fn pythagore() -> f32 {
    3.0_f32.hypot(4.0)
}

fn pythagore_not_work() -> bool {
    4.0_f32.hypot(4.0) == 5.0
}

fn must_theory(u: Assert) -> Result<Assert, CheckError> {
    Ok(u.theory(5.0, pythagore)?.chaos(pythagore_not_work)?)
}

#[test]
pub fn all() {
    let callbacks: Vec<fn(Assert) -> Result<Assert, CheckError>> = vec![
        must_between,
        programs,
        must_theory,
        no_programs,
        must_unequals,
        must_linux,
        must_equals,
        must_exists,
        must_pass,
        must_contains,
        must_superior,
        must_inferior,
    ];
    let report = Assert::it(
        "Test the assert framework",
        "Check if all values passes on success, can't be have failures.",
        DISABLE_PROGRESS_TIME,
        callbacks,
    );
    assert!(report.is_ok());
    let report = report.unwrap();
    assert!(report.passed());
    assert_eq!(report.failures, 0);
    assert_eq!(report.successes, report.total());
}
