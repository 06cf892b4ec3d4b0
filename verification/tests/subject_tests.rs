use tailwind_literal::{Css, ErrorKind, SubjectValue, Value};

fn value(s: &str) -> (&str, &str) {
    SubjectValue::parse_value(s).expect("value expected")
}

#[test]
fn parse_value_reads_a_word() {
    assert_eq!(value("2xl"), ("", "2xl"));
    assert_eq!(value("red-500 rest"), (" rest", "red-500"));
}

#[test]
fn parse_value_reads_fractions_and_decimals() {
    assert_eq!(value("1/2"), ("", "1/2"));
    assert_eq!(value("1.5 x"), (" x", "1.5"));
    assert_eq!(value("-1/2-3"), ("", "-1/2-3"));
}

#[test]
fn parse_value_stops_a_word_at_a_point() {
    // a letter puts the scanner in text mode, where `/` ends the value
    assert_eq!(value("red/50"), ("/50", "red"));
    assert_eq!(value("a.b"), (".b", "a"));
}

#[test]
fn parse_value_refuses_a_letter_after_a_point() {
    let err = SubjectValue::parse_value("1/2a").unwrap_err();
    assert_eq!(err.kind, ErrorKind::AlphaNumeric);
    assert_eq!(err.input, "1/2a");
    let err = SubjectValue::parse_value(".x").unwrap_err();
    assert_eq!(err.kind, ErrorKind::AlphaNumeric);
}

#[test]
fn parse_value_letter_after_point_only_within_the_number_run() {
    // the space ends the value before the letter is seen
    assert_eq!(value("1/2 a"), (" a", "1/2"));
}

#[test]
fn parse_value_empty_and_stopping_inputs() {
    assert_eq!(value(""), ("", ""));
    assert_eq!(value("[x]"), ("[x]", ""));
    assert_eq!(value("é"), ("é", ""));
}

#[test]
fn parse_with_span_plain_value() {
    let (rest, (span, v)) = SubjectValue::parse_with_span("2xl:hover").unwrap();
    assert_eq!(rest, ":hover");
    assert_eq!(span, "2xl");
    assert_eq!(v, SubjectValue::Value(Value("2xl")));
}

#[test]
fn parse_with_span_bracketed_css() {
    let (rest, (span, v)) = SubjectValue::parse_with_span("[#fff]").unwrap();
    assert_eq!(rest, "");
    assert_eq!(span, "#fff");
    assert_eq!(v, SubjectValue::Css(Css("#fff")));

    let (rest, (span, v)) = SubjectValue::parse_with_span("[calc(1px+2px)] b").unwrap();
    assert_eq!(rest, " b");
    assert_eq!(span, "calc(1px+2px)");
    assert_eq!(v, SubjectValue::Css(Css("calc(1px+2px)")));
}

#[test]
fn parse_with_span_empty_brackets() {
    let (rest, (span, v)) = SubjectValue::parse_with_span("[]x").unwrap();
    assert_eq!(rest, "x");
    assert_eq!(span, "");
    assert_eq!(v, SubjectValue::Css(Css("")));
}

#[test]
fn parse_with_span_unclosed_bracket() {
    let err = SubjectValue::parse_with_span("[abc").unwrap_err();
    assert_eq!(err.kind, ErrorKind::Char);
    assert_eq!(err.input, "");
}

#[test]
fn parse_with_span_nothing_to_read() {
    let err = SubjectValue::parse_with_span("!x").unwrap_err();
    assert_eq!(err.kind, ErrorKind::Char);
    assert_eq!(err.input, "!x");
    let err = SubjectValue::parse_with_span("").unwrap_err();
    assert_eq!(err.kind, ErrorKind::Char);
    assert_eq!(err.input, "");
}

#[test]
fn parse_with_span_refused_value_falls_back_to_css() {
    let err = SubjectValue::parse_with_span("1.5a").unwrap_err();
    assert_eq!(err.kind, ErrorKind::Char);
    assert_eq!(err.input, "1.5a");
}

#[test]
fn parse_returns_rest_and_value() {
    assert_eq!(
        SubjectValue::parse("1/2 rest").unwrap(),
        (" rest", SubjectValue::Value(Value("1/2")))
    );
    assert_eq!(
        SubjectValue::parse("[10px]").unwrap(),
        ("", SubjectValue::Css(Css("10px")))
    );
    assert!(SubjectValue::parse("[10px").is_err());
}

#[test]
fn as_str_and_to_string_give_the_text() {
    let v = SubjectValue::Value(Value("2xl"));
    let c = SubjectValue::Css(Css("#fff"));
    assert_eq!(v.as_str(), "2xl");
    assert_eq!(c.as_str(), "#fff");
    assert_eq!(v.to_string(), "2xl");
    assert_eq!(c.to_string(), "#fff");
}

#[test]
fn value_never_mixes_letters_and_points() {
    for input in ["1/2", "a1", "1a", "-1.5", "abc/1", "12.5", "x-y"] {
        if let Ok((rest, v)) = SubjectValue::parse_value(input) {
            let letter = v.chars().any(|c| c.is_ascii_alphabetic());
            let point = v.chars().any(|c| c == '/' || c == '.');
            assert!(!(letter && point), "{input}");
            assert_eq!(format!("{v}{rest}"), input);
        }
    }
}

#[test]
fn parse_value_cuts_at_the_character_count_taken_as_a_byte_offset() {
    // both `Ł` read as letters (their low byte is `A`); the scanner stops
    // after two characters, and the input is cut two bytes in
    assert_eq!(value("ŁŁ!"), ("Ł!", "Ł"));
    // on ASCII text the two offsets agree
    assert_eq!(value("ab!"), ("!", "ab"));
    // a value that runs to the end is the whole input
    assert_eq!(value("ŁŁ"), ("", "ŁŁ"));
}
