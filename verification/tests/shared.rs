use astroid::shared::{
    checked_add, checked_div, checked_mul, checked_rem, checked_sub, copy_strings, lists_key, require_non_empty,
    require_non_negative_amount, require_positive_amount, require_time_reached, Error,
};

#[test]
fn checked_arithmetic_reports_overflow() {
    assert_eq!(checked_add(2, 3), Ok(5));
    assert_eq!(checked_add(i128::MAX, 1), Err(Error::Overflow));
    assert_eq!(checked_sub(2, 3), Ok(-1));
    assert_eq!(checked_sub(i128::MIN, 1), Err(Error::Overflow));
    assert_eq!(checked_mul(-4, 5), Ok(-20));
    assert_eq!(checked_mul(i128::MAX, 2), Err(Error::Overflow));
    assert_eq!(checked_div(-7, 2), Ok(-3));
    assert_eq!(checked_div(7, 0), Err(Error::Overflow));
    assert_eq!(checked_div(i128::MIN, -1), Err(Error::Overflow));
    assert_eq!(checked_rem(-7, 2), Ok(-1));
    assert_eq!(checked_rem(7, 0), Err(Error::Overflow));
}

#[test]
fn input_guards_accept_exactly_their_domain() {
    assert_eq!(require_non_empty(&"x".to_string()), Ok(()));
    assert_eq!(require_non_empty(&String::new()), Err(Error::InvalidInput));
    assert_eq!(require_positive_amount(1), Ok(()));
    assert_eq!(require_positive_amount(0), Err(Error::InvalidAmount));
    assert_eq!(require_non_negative_amount(0), Ok(()));
    assert_eq!(require_non_negative_amount(-1), Err(Error::InvalidAmount));
    assert_eq!(require_time_reached(10, 10), Ok(()));
    assert_eq!(require_time_reached(9, 10), Err(Error::TimelockNotExpired));
}

#[test]
fn string_lists_compare_by_text() {
    let keys = vec!["GA".to_string(), "GB".to_string()];
    assert!(lists_key(&keys, &"GB".to_string()));
    assert!(!lists_key(&keys, &"GC".to_string()));
    assert_eq!(copy_strings(&keys), keys);
}
