use rssscribe::tool::{decimal_text, parse_args, parse_count, tool_arguments, ArgsError, TOOL_PROGRAM};

#[test]
fn tool_arguments_in_order() {
    assert_eq!(TOOL_PROGRAM, "yt-dlp");
    assert_eq!(
        tool_arguments(1, "http://x"),
        vec!["--dump-json", "--skip-download", "--quiet", "--ignore-errors", "--playlist-end", "1", "http://x"]
    );
}

#[test]
fn decimal_text_values() {
    assert_eq!(decimal_text(0), "0");
    assert_eq!(decimal_text(9), "9");
    assert_eq!(decimal_text(10), "10");
    assert_eq!(decimal_text(1207), "1207");
    assert_eq!(decimal_text(u64::MAX), "18446744073709551615");
}

#[test]
fn parse_count_values() {
    assert_eq!(parse_count("42"), Some(42));
    assert_eq!(parse_count("+7"), Some(7));
    assert_eq!(parse_count("0"), Some(0));
    assert_eq!(parse_count("18446744073709551615"), Some(u64::MAX));
    assert_eq!(parse_count("18446744073709551616"), None);
    assert_eq!(parse_count("99999999999999999999x"), None);
    assert_eq!(parse_count("-1"), None);
    assert_eq!(parse_count(""), None);
    assert_eq!(parse_count("+"), None);
    assert_eq!(parse_count("1 "), None);
}

#[test]
fn parse_args_cases() {
    let a = |v: &[&str]| v.iter().map(|s| s.to_string()).collect::<Vec<String>>();
    assert!(matches!(parse_args(&a(&["prog"])), Err(ArgsError::Usage)));
    assert!(matches!(parse_args(&a(&["prog", "5"])), Err(ArgsError::Usage)));
    assert!(matches!(parse_args(&a(&["prog", "five", "http://x"])), Err(ArgsError::BadCount)));
    match parse_args(&a(&["prog", "5", "http://x"])) {
        Ok(r) => {
            assert_eq!(r.limit, 5);
            assert_eq!(r.url, "http://x");
        }
        Err(_) => panic!("valid arguments were refused"),
    }
}
