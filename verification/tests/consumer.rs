use argtok::arg::Arg;
use argtok::consumer::consume;
use argtok::flag::Flag;
use argtok::names::Names;
use argtok::parsable::Parsable;

fn tokens(v: Vec<&str>) -> Vec<String> {
    v.into_iter().map(|s| s.to_string()).collect()
}

fn names(v: Vec<&str>) -> Names {
    Names::new(v.into_iter().map(|s| s.to_string()).collect())
}

#[test]
fn test_consume_sets_flag() {
    let mut options = vec![Flag::new(names(vec!["v"]), false)];
    let r = consume(&mut options, tokens(vec!["-v"]));
    assert!(r.is_ok());
    assert_eq!(options[0].value(), true);
}

#[test]
fn test_consume_unrecognized_option() {
    let mut options = vec![Flag::new(names(vec!["v"]), false)];
    let err = consume(&mut options, tokens(vec!["-x"])).unwrap_err();
    assert!(err.is_unrecognized_option());
}

#[test]
fn test_consume_positional_word_is_unsupported() {
    let mut options = vec![Flag::new(names(vec!["v"]), false)];
    let err = consume(&mut options, tokens(vec!["word"])).unwrap_err();
    assert!(err.is_unsupported_construct());
}

#[test]
fn test_consume_lone_dash_is_malformed() {
    let mut options = vec![Flag::new(names(vec!["v"]), false)];
    let err = consume(&mut options, tokens(vec!["-"])).unwrap_err();
    assert!(err.is_malformed_token());
}

#[test]
fn test_consume_long_flag_with_inline_value() {
    let mut options = vec![Arg::<i64>::new(names(vec!["tail"]), 0)];
    let r = consume(&mut options, tokens(vec!["--tail=100"]));
    assert!(r.is_ok());
    assert_eq!(options[0].value, Some(100));
}

#[test]
fn test_consume_combined_short_flags() {
    let mut options = vec![
        Flag::new(names(vec!["a"]), false),
        Flag::new(names(vec!["b"]), false),
    ];
    let r = consume(&mut options, tokens(vec!["-ab"]));
    assert!(r.is_ok());
    assert_eq!(options[0].value(), true);
    assert_eq!(options[1].value(), true);
}

#[test]
fn test_consume_value_from_next_token() {
    let mut options = vec![Arg::<i64>::new(names(vec!["n"]), 0)];
    let r = consume(&mut options, tokens(vec!["-n", "10"]));
    assert!(r.is_ok());
    assert_eq!(options[0].value, Some(10));
}

#[test]
fn test_consume_first_match_wins() {
    let mut options = vec![
        Flag::new(names(vec!["v"]), false),
        Flag::new(names(vec!["v", "w"]), false),
    ];
    let r = consume(&mut options, tokens(vec!["-v", "-w"]));
    assert!(r.is_ok());
    assert_eq!(options[0].value(), true);
    assert_eq!(options[1].value(), true);
}

#[test]
fn test_consume_missing_value_is_parse_failure() {
    let mut options = vec![Arg::<i64>::new(names(vec!["n"]), 0)];
    let err = consume(&mut options, tokens(vec!["-n"])).unwrap_err();
    assert!(err.is_argument_parse_failure());
}

#[test]
fn test_consume_aborts_on_first_error() {
    let mut options = vec![Flag::new(names(vec!["v"]), false)];
    let err = consume(&mut options, tokens(vec!["-x", "-v"])).unwrap_err();
    assert!(err.is_unrecognized_option());
    // the flag after the failing token was never fed
    assert_eq!(options[0].value(), false);
}
