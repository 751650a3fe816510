use layer_config::text::{parse_bool, parse_i64};

#[test]
fn decimal_integers_parse_exactly() {
    assert_eq!(parse_i64("0"), Some(0));
    assert_eq!(parse_i64("80"), Some(80));
    assert_eq!(parse_i64("+80"), Some(80));
    assert_eq!(parse_i64("-80"), Some(-80));
    assert_eq!(parse_i64("007"), Some(7));
}

#[test]
fn integer_bounds_are_respected() {
    assert_eq!(parse_i64("9223372036854775807"), Some(i64::MAX));
    assert_eq!(parse_i64("-9223372036854775808"), Some(i64::MIN));
    assert_eq!(parse_i64("9223372036854775808"), None);
    assert_eq!(parse_i64("-9223372036854775809"), None);
    assert_eq!(parse_i64("99999999999999999999999999"), None);
}

#[test]
fn malformed_integers_do_not_parse() {
    assert_eq!(parse_i64(""), None);
    assert_eq!(parse_i64("-"), None);
    assert_eq!(parse_i64("+"), None);
    assert_eq!(parse_i64("8 0"), None);
    assert_eq!(parse_i64("eighty"), None);
    assert_eq!(parse_i64("8o"), None);
    assert_eq!(parse_i64("--8"), None);
}

#[test]
fn booleans_parse_exactly() {
    assert_eq!(parse_bool("true"), Some(true));
    assert_eq!(parse_bool("false"), Some(false));
    assert_eq!(parse_bool("True"), None);
    assert_eq!(parse_bool("1"), None);
    assert_eq!(parse_bool(""), None);
}
