use argtok::errors::Error;
use argtok::tokenizer::{Name, Tokenizer};

fn tokens(v: Vec<&str>) -> Vec<String> {
    v.into_iter().map(|s| s.to_string()).collect()
}

fn assert_short_arg(name: Result<Name, Error>, value: &str) {
    let name = name.unwrap();
    if let Name::ShortArg(name) = name {
        assert_eq!(name, value)
    } else {
        panic!("{:?} supposed to be a short arg!", name)
    }
}

fn assert_long_arg(name: Result<Name, Error>, value: &str) {
    let name = name.unwrap();
    if let Name::LongArg(name) = name {
        assert_eq!(name, value)
    } else {
        panic!("{:?} supposed to be a long arg!", name)
    }
}

fn assert_command(name: Result<Name, Error>, value: &str) {
    let name = name.unwrap();
    if let Name::Command(name) = name {
        assert_eq!(name, value)
    } else {
        panic!("{:?} supposed to be a command!", name)
    }
}

#[test]
fn test_factory() {
    let tok = Tokenizer::new(tokens(vec!["-abcd", "-vvvv", "VALUE"]));
    assert_eq!(tok.input, vec!["-abcd", "-vvvv", "VALUE"]);
    assert!(tok.leftover.is_empty());
    assert_eq!(tok.position, 0);
}

#[test]
fn test_read_single_arguments() {
    let mut tok = Tokenizer::new(tokens(vec!["-abcd", "-vvvv", "VALUE"]));

    assert_short_arg(tok.get_name(), "a");
    assert_short_arg(tok.get_name(), "b");
    assert_eq!(tok.get_value().unwrap(), "cd");
    vec!["v"; 4].iter().for_each(|name| {
        assert_eq!(tok.is_over(), false);
        assert_short_arg(tok.get_name(), *name);
    });
    assert_eq!(tok.get_value().unwrap(), "VALUE");
    assert!(tok.is_over())
}

#[test]
fn test_read_complex_attributes() {
    let mut tok = Tokenizer::new(tokens(vec![
        "--name",
        "--another_name",
        "VALUE HERE",
        "--this=that",
    ]));
    assert_long_arg(tok.get_name(), "name");
    assert_long_arg(tok.get_name(), "another_name");
    assert_eq!(tok.is_over(), false);
    assert_eq!(tok.get_value().unwrap(), "VALUE HERE");
    assert_long_arg(tok.get_name(), "this");
    assert_eq!(tok.get_value().unwrap(), "that");
    assert!(tok.is_over())
}

#[test]
fn test_read_name_from_value() {
    let mut tok = Tokenizer::new(tokens(vec!["--aaaa=bbbb"]));
    assert_long_arg(tok.get_name(), "aaaa");
    assert!(tok.get_name().is_err());
}

#[test]
fn test_no_actual_name() {
    let mut tok = Tokenizer::new(tokens(vec!["-"]));
    assert!(tok.get_name().is_err());
}

#[test]
fn test_no_invalid_name() {
    let mut tok = Tokenizer::new(tokens(vec!["name"]));
    assert_command(tok.get_name(), "name")
}

#[test]
fn test_lone_dash_is_malformed_token() {
    let mut tok = Tokenizer::new(tokens(vec!["-"]));
    let err = tok.get_name().unwrap_err();
    assert!(err.is_malformed_token());
}

#[test]
fn test_pending_value_read_as_name_is_leftover_mismatch() {
    let mut tok = Tokenizer::new(tokens(vec!["--key=val"]));
    assert_long_arg(tok.get_name(), "key");
    // before the value is read, requesting a name again is an error, and the
    // value stays readable afterwards
    let err = tok.get_name().unwrap_err();
    assert!(err.is_leftover_mismatch());
    assert_eq!(tok.get_value().unwrap(), "val");
    assert!(tok.is_over());
}

#[test]
fn test_round_trip_split_value_token() {
    let mut tok = Tokenizer::new(tokens(vec!["-fn", "10"]));
    assert_short_arg(tok.get_name(), "f");
    assert_short_arg(tok.get_name(), "n");
    assert_eq!(tok.get_value().unwrap(), "10");
    assert!(tok.is_over());
}

#[test]
fn test_round_trip_combined_value_token() {
    let mut tok = Tokenizer::new(tokens(vec!["-fn10"]));
    assert_short_arg(tok.get_name(), "f");
    assert_short_arg(tok.get_name(), "n");
    assert_eq!(tok.get_value().unwrap(), "10");
    assert!(tok.is_over());
}

#[test]
fn test_combined_flags_value_after_first_name() {
    let mut tok = Tokenizer::new(tokens(vec!["-abc"]));
    assert_short_arg(tok.get_name(), "a");
    assert_eq!(tok.get_value().unwrap(), "bc");
    assert!(tok.is_over());
}

#[test]
fn test_inline_value_with_empty_payload() {
    let mut tok = Tokenizer::new(tokens(vec!["--key="]));
    assert_long_arg(tok.get_name(), "key");
    assert_eq!(tok.get_value().unwrap(), "");
    assert!(tok.is_over());
}

#[test]
fn test_double_dash_alone_is_empty_long_flag() {
    let mut tok = Tokenizer::new(tokens(vec!["--"]));
    assert_long_arg(tok.get_name(), "");
    assert!(tok.is_over());
}

#[test]
fn test_inline_value_with_empty_key() {
    let mut tok = Tokenizer::new(tokens(vec!["--=v"]));
    assert_long_arg(tok.get_name(), "");
    assert_eq!(tok.get_value().unwrap(), "v");
    assert!(tok.is_over());
}
