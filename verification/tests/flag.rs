use argtok::flag::Flag;
use argtok::names::Names;
use argtok::parsable::Parsable;

fn names(v: Vec<&str>) -> Names {
    Names::new(v.into_iter().map(|s| s.to_string()).collect())
}

fn create_flag() -> Flag {
    Flag {
        positive_names: names(vec!["t", "true", "totally"]),
        negative_names: names(vec!["f", "false", "no", "n"]),
        value: None,
        default: false,
    }
}

#[test]
fn test_names() {
    let f = create_flag();
    assert_eq!(f.long_names(), vec!["true", "totally", "false", "no"]);
    assert_eq!(f.short_names(), vec!["t", "f", "n"]);
}

#[test]
fn test_default() {
    let f = create_flag();
    assert_eq!(f.value(), false)
}

#[test]
fn test_receives_value() {
    vec!["f", "n", "no"].iter().for_each(|name| {
        let mut f = create_flag();
        f.default = true;
        f.feed_arg(name, None).unwrap();
        assert_eq!(f.value(), false)
    });
    vec!["t", "true", "totally"].iter().for_each(|name| {
        let mut f = create_flag();
        f.feed_arg(name, None).unwrap();
        assert_eq!(f.value(), true)
    })
}

#[test]
fn test_fails_if_called_twice() {
    let mut f = create_flag();
    f.feed_arg("true", None).unwrap();
    match f.feed_arg("false", None) {
        Ok(_) => panic!("Error should've accured"),
        Err(_) => (),
    }
}

#[test]
fn test_set_twice_is_flag_misuse() {
    let mut f = create_flag();
    f.feed_arg("t", None).unwrap();
    let err = f.feed_arg("t", None).unwrap_err();
    assert!(err.is_flag_misuse());
    // the first feed's value is kept
    assert_eq!(f.value(), true);
}

#[test]
fn test_fed_value_is_flag_misuse() {
    let mut f = create_flag();
    let err = f.feed_arg("t", Some("anything")).unwrap_err();
    assert!(err.is_flag_misuse());
    assert_eq!(f.value(), false);
}

#[test]
fn test_unknown_name_is_flag_misuse() {
    let mut f = create_flag();
    let err = f.feed_arg("maybe", None).unwrap_err();
    assert!(err.is_flag_misuse());
}

#[test]
fn test_new_has_no_negative_names() {
    let f = Flag::new(names(vec!["v", "verbose"]), false);
    assert_eq!(f.short_names(), vec!["v"]);
    assert_eq!(f.long_names(), vec!["verbose"]);
    assert_eq!(f.value(), false);
}
