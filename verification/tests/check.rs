use unit_testing::check::{Assertion, Check};

#[test]
fn test_assert_continue() {
    Assertion::eq(&1, &1);
    Assertion::ne(&1, &2);
    Assertion::ge(&420, &420);
    Assertion::gt(&55, &22);
    Assertion::lt(&4, &12);
    Assertion::le(&2, &2);
}

#[test]
fn check_comparators() {
    assert_eq!(Check::eq(&41, &41), true);
    assert_eq!(Check::eq(&false, &false), true);
    assert_eq!(Check::eq(&"true", &"true"), true);
    assert_eq!(Check::ne(&41, &42), true);
    assert_eq!(Check::ne(&"false", &"true"), true);
    assert_eq!(Check::gt(&43, &42), true);
    assert_eq!(Check::gt(&42, &43), false);
    assert_eq!(Check::lt(&42, &43), true);
    assert_eq!(Check::le(&42, &42), true);
    assert_eq!(Check::ge(&42, &42), true);
    assert_eq!(Check::ge(&41, &42), false);
}
