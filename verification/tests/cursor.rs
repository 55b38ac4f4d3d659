use technobot::args::{Args, Error};

#[test]
fn whole_input_is_one_token() {
    let mut args = Args::new("justonetoken");
    let got = args.single::<String>().unwrap();
    assert_eq!(got, "justonetoken");
    assert_eq!(args.remaining(), "");
}

#[test]
fn tokens_come_out_in_order() {
    let mut args = Args::new("alpha beta");
    assert_eq!(args.single::<String>().unwrap(), "alpha");
    assert_eq!(args.remaining(), "beta");
    assert_eq!(args.single::<String>().unwrap(), "beta");
    assert_eq!(args.remaining(), "");
}

#[test]
fn quoted_encoding_round_trips() {
    // the token a"b\c, escaped and wrapped in quotes
    let mut args = Args::new("\"a\\\"b\\\\c\"");
    assert_eq!(args.single_quoted::<String>().unwrap(), "a\"b\\c");
    assert_eq!(args.remaining(), "");
}

#[test]
fn empty_cursor_failure_is_idempotent() {
    let mut args = Args::new("");
    for _ in 0..5 {
        assert!(matches!(args.single::<String>(), Err(Error::Empty)));
        assert_eq!(args.remaining(), "");
    }
}

#[test]
fn lone_quote_is_not_a_token() {
    let mut args = Args::new("\"");
    assert!(matches!(args.single_quoted::<String>(), Err(Error::ArgParse)));
    assert_eq!(args.remaining(), "\"");
}

#[test]
fn plain_string_extraction() {
    let mut args = Args::new("hello world");
    assert_eq!(args.single::<String>().unwrap(), "hello");
    assert_eq!(args.remaining(), "world");
}

#[test]
fn plain_number_extraction() {
    let mut args = Args::new("42");
    assert_eq!(args.single::<u64>().unwrap(), 42);
    assert_eq!(args.remaining(), "");
}

#[test]
fn quoted_two_word_extraction() {
    let mut args = Args::new("\"two words\" more");
    assert_eq!(args.single_quoted::<String>().unwrap(), "two words");
    assert_eq!(args.remaining(), "more");
}

#[test]
fn quoted_escaped_quote_extraction() {
    let mut args = Args::new("\"a\\\"b\" x");
    assert_eq!(args.single_quoted::<String>().unwrap(), "a\"b");
    assert_eq!(args.remaining(), "x");
}

#[test]
fn empty_input_is_empty_error() {
    let mut args = Args::new("");
    assert!(matches!(args.single::<String>(), Err(Error::Empty)));
}

#[test]
fn non_numeric_token_is_conversion_failure() {
    let mut args = Args::new("notanumber");
    assert!(matches!(args.single::<u64>(), Err(Error::Parse(_))));
}

#[test]
fn conversion_failure_still_advances_the_cursor() {
    let mut args = Args::new("notanumber 42");
    assert!(matches!(args.single::<u64>(), Err(Error::Parse(_))));
    assert_eq!(args.remaining(), "42");
    assert_eq!(args.single::<u64>().unwrap(), 42);
}

#[test]
fn doubled_separator_is_a_grammar_error() {
    let mut args = Args::new("a  b");
    assert_eq!(args.single::<String>().unwrap(), "a");
    assert_eq!(args.remaining(), " b");
    assert!(matches!(args.single::<String>(), Err(Error::ArgParse)));
    assert_eq!(args.remaining(), " b");
}

#[test]
fn unterminated_quote_is_a_grammar_error() {
    let mut args = Args::new("\"quote does not end");
    assert!(matches!(args.single_quoted::<String>(), Err(Error::ArgParse)));
    assert_eq!(args.remaining(), "\"quote does not end");
}

#[test]
fn malformed_escape_is_a_grammar_error_not_a_fallback() {
    let mut args = Args::new("\"a\\nb\"");
    assert!(matches!(args.single_quoted::<String>(), Err(Error::ArgParse)));
}

#[test]
fn single_quoted_falls_back_to_unquoted() {
    let mut args = Args::new("plain rest");
    assert_eq!(args.single_quoted::<String>().unwrap(), "plain");
    assert_eq!(args.remaining(), "rest");
}

#[test]
fn quoted_number_extraction() {
    let mut args = Args::new("\"42\" tail");
    assert_eq!(args.single_quoted::<u64>().unwrap(), 42);
    assert_eq!(args.remaining(), "tail");
}
