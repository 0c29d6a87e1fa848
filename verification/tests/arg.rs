use argtok::arg::Arg;
use argtok::names::Names;
use argtok::parsable::Parsable;
use argtok::value::FromText;

fn names(v: Vec<&str>) -> Names {
    Names::new(v.into_iter().map(|s| s.to_string()).collect())
}

#[test]
fn test_arg_parses_integer() {
    let mut a = Arg::<i64>::new(names(vec!["n", "number"]), 0);
    a.feed_arg("n", Some("42")).unwrap();
    assert_eq!(a.value, Some(42));
}

#[test]
fn test_arg_rejects_unparsable_text() {
    let mut a = Arg::<i64>::new(names(vec!["n"]), 0);
    let err = a.feed_arg("n", Some("abc")).unwrap_err();
    assert!(err.is_argument_parse_failure());
    assert_eq!(a.value, None);
}

#[test]
fn test_arg_rejects_missing_value() {
    let mut a = Arg::<i64>::new(names(vec!["n"]), 0);
    let err = a.feed_arg("n", None).unwrap_err();
    assert!(err.is_argument_parse_failure());
}

#[test]
fn test_arg_accepts_a_value() {
    let a = Arg::<i64>::new(names(vec!["n"]), 0);
    assert!(a.accept_arg());
    assert_eq!(a.short_names(), vec!["n"]);
}

#[test]
fn test_parse_text_plain_numbers() {
    assert_eq!(<i64 as FromText>::parse_text("0"), Some(0));
    assert_eq!(<i64 as FromText>::parse_text("42"), Some(42));
    assert_eq!(<i64 as FromText>::parse_text("-7"), Some(-7));
    assert_eq!(<i64 as FromText>::parse_text("007"), Some(7));
}

#[test]
fn test_parse_text_rejects_bad_shapes() {
    assert_eq!(<i64 as FromText>::parse_text(""), None);
    assert_eq!(<i64 as FromText>::parse_text("-"), None);
    assert_eq!(<i64 as FromText>::parse_text("12a"), None);
    assert_eq!(<i64 as FromText>::parse_text("+5"), None);
    assert_eq!(<i64 as FromText>::parse_text(" 5"), None);
}

#[test]
fn test_parse_text_range_bounds() {
    assert_eq!(
        <i64 as FromText>::parse_text("9223372036854775807"),
        Some(i64::MAX)
    );
    assert_eq!(<i64 as FromText>::parse_text("9223372036854775808"), None);
    assert_eq!(
        <i64 as FromText>::parse_text("-9223372036854775808"),
        Some(i64::MIN)
    );
    assert_eq!(<i64 as FromText>::parse_text("-9223372036854775809"), None);
    assert_eq!(<i64 as FromText>::parse_text("99999999999999999999999"), None);
}

#[test]
fn test_names_partition() {
    let n = names(vec!["t", "true", "totally", "x"]);
    assert_eq!(n.short_names, vec!["t", "x"]);
    assert_eq!(n.long_names, vec!["true", "totally"]);
    let e = Names::empty();
    assert!(e.short_names.is_empty());
    assert!(e.long_names.is_empty());
}
