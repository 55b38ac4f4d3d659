use technobot::arg_parser::{quoted, single_arg, single_quoted_arg, Recognition};

fn done(token: &str, rest: &str) -> Recognition {
    Recognition::Done { token: token.to_string(), rest: rest.to_string() }
}

#[test]
fn test_single_arg() {
    assert_eq!(single_arg(""), Recognition::NeedMore);
    assert_eq!(single_arg("single"), done("single", ""));
    assert_eq!(single_arg("one two"), done("one", "two"));
    assert_eq!(single_arg("\"one two\""), done("\"one", "two\""));
}

#[test]
fn test_single_quoted_arg() {
    assert_eq!(single_quoted_arg(""), Recognition::NeedMore);
    assert_eq!(single_quoted_arg("single"), done("single", ""));
    assert_eq!(single_quoted_arg("one two"), done("one", "two"));

    assert_eq!(single_quoted_arg("\"quoted arg\" with more"), done("quoted arg", "with more"));
    assert_eq!(
        single_quoted_arg("\"quoted with \\\" escaped\" more"),
        done("quoted with \" escaped", "more")
    );
    assert_eq!(single_quoted_arg("\"quote does not end"), Recognition::NeedMore);
}

#[test]
fn test_quoted() {
    assert_eq!(quoted(""), Recognition::NeedMore);

    assert_eq!(
        quoted("\"quoted thing\" lkj lkj lkj lkj lkj lkj "),
        done("quoted thing", " lkj lkj lkj lkj lkj lkj ")
    );

    assert_eq!(quoted("no quotes here"), Recognition::Violation);
}

#[test]
fn quoted_rejects_unknown_escape() {
    assert_eq!(quoted("\"a\\nb\""), Recognition::Violation);
}

#[test]
fn quoted_without_separator_after_close_is_violation() {
    assert_eq!(single_quoted_arg("\"ab\"cd"), Recognition::Violation);
}

#[test]
fn quoted_consumes_one_separator_only() {
    assert_eq!(single_quoted_arg("\"ab\"  cd"), done("ab", " cd"));
}

#[test]
fn single_arg_consumes_one_separator_only() {
    assert_eq!(single_arg("one  two"), done("one", " two"));
}

#[test]
fn single_arg_on_leading_whitespace_needs_more() {
    assert_eq!(single_arg(" one"), Recognition::NeedMore);
    assert_eq!(single_arg("\tone"), Recognition::NeedMore);
    assert_eq!(single_arg("\none"), Recognition::NeedMore);
}

#[test]
fn quoted_trailing_backslash_needs_more() {
    assert_eq!(quoted("\"abc\\"), Recognition::NeedMore);
}
