use churn_bench::cli::{config_from_values, parse_cli, ArgError, BenchConfig};
use churn_bench::numparse::parse_i32;

fn args(xs: &[&str]) -> Vec<String> {
    let mut v = Vec::new();
    for x in xs {
        v.push(x.to_string());
    }
    v
}

#[test]
fn parse_i32_plain_numerals() {
    assert_eq!(parse_i32("0"), Some(0));
    assert_eq!(parse_i32("42"), Some(42));
    assert_eq!(parse_i32("007"), Some(7));
    assert_eq!(parse_i32("+5"), Some(5));
    assert_eq!(parse_i32("-7"), Some(-7));
    assert_eq!(parse_i32("1000000"), Some(1000000));
}

#[test]
fn parse_i32_range_edges() {
    assert_eq!(parse_i32("2147483647"), Some(i32::MAX));
    assert_eq!(parse_i32("-2147483648"), Some(i32::MIN));
    assert_eq!(parse_i32("2147483648"), None);
    assert_eq!(parse_i32("-2147483649"), None);
    assert_eq!(parse_i32("99999999999999999999"), None);
}

#[test]
fn parse_i32_rejects_what_rust_rejects() {
    for s in ["", "-", "+", "abc", "1e3", " 5", "5 ", "1.0", "0x10", "--1", "+-1"] {
        assert_eq!(parse_i32(s), None, "accepted {:?}", s);
        assert_eq!(s.parse::<i32>().ok(), None);
    }
}

#[test]
fn parse_i32_agrees_with_rust_parsing() {
    for s in ["0", "42", "007", "+5", "-7", "2147483647", "-2147483648", "2147483648"] {
        assert_eq!(parse_i32(s), s.parse::<i32>().ok());
    }
}

#[test]
fn config_requires_both_values() {
    assert_eq!(config_from_values(None, Some("2".to_string())), Err(ArgError::MissingValue));
    assert_eq!(config_from_values(Some("3".to_string()), None), Err(ArgError::MissingValue));
    assert_eq!(
        config_from_values(Some("abc".to_string()), Some("2".to_string())),
        Err(ArgError::NotAnInteger)
    );
    assert_eq!(
        config_from_values(Some("3".to_string()), Some("x".to_string())),
        Err(ArgError::NotAnInteger)
    );
    assert_eq!(
        config_from_values(Some("3".to_string()), Some("2".to_string())),
        Ok(BenchConfig { num_iterations: 3, buffer_size: 2 })
    );
}

#[test]
fn cli_accepts_the_two_required_options() {
    let r = parse_cli(&args(&["-i", "3", "-b", "2"]));
    assert_eq!(r, Ok(BenchConfig { num_iterations: 3, buffer_size: 2 }));
}

#[test]
fn cli_accepts_zero_and_negative_values() {
    let r = parse_cli(&args(&["-i", "0", "-b", "0"]));
    assert_eq!(r, Ok(BenchConfig { num_iterations: 0, buffer_size: 0 }));
    let r = parse_cli(&args(&["-i", "-4", "-b", "-1"]));
    assert_eq!(r, Ok(BenchConfig { num_iterations: -4, buffer_size: -1 }));
}

#[test]
fn cli_rejects_a_missing_required_option() {
    assert!(matches!(parse_cli(&args(&["-b", "2"])), Err(ArgError::BadOptions(_))));
    assert!(matches!(parse_cli(&args(&["-i", "3"])), Err(ArgError::BadOptions(_))));
    assert!(matches!(parse_cli(&args(&[])), Err(ArgError::BadOptions(_))));
}

#[test]
fn cli_rejects_a_non_integer_value() {
    assert_eq!(parse_cli(&args(&["-i", "abc", "-b", "2"])), Err(ArgError::NotAnInteger));
    assert_eq!(parse_cli(&args(&["-i", "3", "-b", "abc"])), Err(ArgError::NotAnInteger));
}

#[test]
fn cli_rejects_unknown_options() {
    assert!(matches!(
        parse_cli(&args(&["-i", "3", "-b", "2", "-x", "1"])),
        Err(ArgError::BadOptions(_))
    ));
}

#[test]
fn cli_error_message_comes_from_the_option_matcher() {
    match parse_cli(&args(&["-b", "2"])) {
        Err(ArgError::BadOptions(msg)) => assert!(msg.contains("'i'")),
        other => panic!("expected BadOptions, got {:?}", other),
    }
}
