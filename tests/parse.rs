use console_parser::{
    parse_arg_str, parse_bool, parse_command_name, parse_console_command, parse_float,
    parse_full_command, parse_int, parse_string, parse_value, parse_value_list, ConsoleCommand,
    ParseError, ParseErrorKind, ValueRaw,
};

fn float_of(raw: &str) -> f64 {
    raw.replace('_', "").parse::<f64>().unwrap()
}

#[test]
fn it_parses_strings() {
    assert_eq!(
        parse_string(r#""hello world""#),
        Ok(("", "hello world".to_string()))
    );
    assert_eq!(
        parse_string(r#""hello \"world""#),
        Ok(("", "hello \"world".to_string()))
    );
    assert_eq!(
        parse_string("'hello world'"),
        Ok(("", "hello world".to_string()))
    );
    assert!(parse_string(r#""hello world"#).is_err());
    assert!(parse_string("'hello world").is_err());
    assert!(parse_string(r#""hello world'"#).is_err());
    assert!(parse_string(r#"'hello world""#).is_err());
}

#[test]
fn it_parses_ints() {
    assert_eq!(parse_int("124"), Ok(("", (124, "124"))));
    assert_eq!(parse_int("124hello"), Ok(("hello", (124, "124"))));
    assert_eq!(parse_int("123_456"), Ok(("", (123456, "123_456"))));
}

#[test]
fn it_parses_floats() {
    let (rest, raw) = parse_float("124.").unwrap();
    assert_eq!((rest, raw), ("", "124."));
    assert_eq!(float_of(raw), 124.0);
    let (rest, raw) = parse_float("124.hello").unwrap();
    assert_eq!((rest, raw), ("hello", "124."));
    assert_eq!(float_of(raw), 124.0);
    let (rest, raw) = parse_float("123_456.").unwrap();
    assert_eq!((rest, raw), ("", "123_456."));
    assert_eq!(float_of(raw), 123456.0);
    let (rest, raw) = parse_float("123_456.789_123").unwrap();
    assert_eq!((rest, raw), ("", "123_456.789_123"));
    assert_eq!(float_of(raw), 123456.789123);
}

#[test]
fn it_parses_bools() {
    assert_eq!(parse_bool("true"), Ok(("", (true, "true"))));
    assert_eq!(parse_bool("TRUE"), Ok(("", (true, "TRUE"))));
    assert_eq!(parse_bool("1"), Ok(("", (true, "1"))));
    assert_eq!(parse_bool("false"), Ok(("", (false, "false"))));
    assert_eq!(parse_bool("FALSE"), Ok(("", (false, "FALSE"))));
    assert_eq!(parse_bool("0"), Ok(("", (false, "0"))));
    assert_eq!(parse_bool("true_"), Ok(("_", (true, "true"))));
    assert_eq!(parse_bool("false_"), Ok(("_", (false, "false"))));
    assert_eq!(parse_bool("1_"), Ok(("_", (true, "1"))));
    assert_eq!(parse_bool("0_"), Ok(("_", (false, "0"))));
}

#[test]
fn it_parses_values() {
    assert_eq!(
        parse_value(r#""hello world""#),
        Ok(("", ValueRaw::String("hello world".to_string())))
    );
    assert_eq!(
        parse_value(r#""hello world""#),
        Ok(("", ValueRaw::String("hello world".to_string())))
    );
}

#[test]
fn it_parses_value_list() {
    assert_eq!(
        parse_value_list(r#""hello world" 10 true"#),
        Ok(vec![
            ValueRaw::String("hello world".to_string()),
            ValueRaw::Int(10, "10"),
            ValueRaw::Bool(true, "true")
        ])
    );
    let list = parse_value_list(r#""hello world" 10. true"#).unwrap();
    assert_eq!(
        list,
        vec![
            ValueRaw::String("hello world".to_string()),
            ValueRaw::Float("10."),
            ValueRaw::Bool(true, "true")
        ]
    );
    match list[1] {
        ValueRaw::Float(raw) => assert_eq!(float_of(raw), 10.0),
        _ => panic!("not a float"),
    }
}

#[test]
fn integers_with_underscores_keep_their_text() {
    assert_eq!(parse_value_list("1_000"), Ok(vec![ValueRaw::Int(1000, "1_000")]));
    assert_eq!(parse_value_list("007"), Ok(vec![ValueRaw::Int(7, "007")]));
    assert_eq!(
        parse_value_list("9223372036854775807"),
        Ok(vec![ValueRaw::Int(i64::MAX, "9223372036854775807")])
    );
}

#[test]
fn integer_too_large_for_i64_is_a_bare_word() {
    assert_eq!(
        parse_value_list("9223372036854775808"),
        Ok(vec![ValueRaw::String("9223372036854775808".to_string())])
    );
}

#[test]
fn plain_double_quoted_string() {
    assert_eq!(
        parse_value_list("\"just some text\""),
        Ok(vec![ValueRaw::String("just some text".to_string())])
    );
    assert_eq!(parse_value_list("\"\""), Ok(vec![ValueRaw::String(String::new())]));
}

#[test]
fn newline_escape_gives_one_character() {
    assert_eq!(
        parse_value_list(r#""a\nb""#),
        Ok(vec![ValueRaw::String("a\nb".to_string())])
    );
}

#[test]
fn other_escapes() {
    assert_eq!(
        parse_value_list(r#""\r\t\b\f\\\/\"\'""#),
        Ok(vec![ValueRaw::String("\r\t\u{08}\u{0C}\\/\"'".to_string())])
    );
    assert_eq!(
        parse_value_list("\"a\\  \n b\""),
        Ok(vec![ValueRaw::String("ab".to_string())])
    );
}

#[test]
fn unicode_escapes() {
    assert_eq!(
        parse_value_list(r#""\u{1}""#),
        Ok(vec![ValueRaw::String("\u{1}".to_string())])
    );
    assert_eq!(
        parse_value_list(r#""\u{10FFFF}""#),
        Ok(vec![ValueRaw::String("\u{10FFFF}".to_string())])
    );
    assert_eq!(
        parse_value_list(r#""\u{e9}t\u{E9}""#),
        Ok(vec![ValueRaw::String("été".to_string())])
    );
    assert!(parse_value_list(r#""\u{D800}""#).is_err());
    assert!(parse_value_list(r#""\u{DFFF}""#).is_err());
    assert!(parse_value_list(r#""\u{110000}""#).is_err());
    assert!(parse_value_list(r#""\u{0000041}""#).is_err());
    assert!(parse_value_list(r#""\u{}""#).is_err());
}

#[test]
fn unterminated_quote_fails() {
    assert_eq!(
        parse_value_list("\"abc"),
        Err(ParseError { position: 0, kind: ParseErrorKind::UnexpectedInput })
    );
    assert!(parse_value_list("'abc").is_err());
    assert!(parse_value_list("\"").is_err());
    assert!(parse_value_list("x \"abc def").is_err());
}

#[test]
fn float_and_int_are_told_apart() {
    assert_eq!(parse_value_list("124"), Ok(vec![ValueRaw::Int(124, "124")]));
    assert_eq!(parse_value_list("124."), Ok(vec![ValueRaw::Float("124.")]));
    assert_eq!(parse_value_list("124.5"), Ok(vec![ValueRaw::Float("124.5")]));
    assert_eq!(parse_value_list(".5"), Ok(vec![ValueRaw::Float(".5")]));
    assert_eq!(float_of("124."), 124.0);
    assert_eq!(float_of("124.5"), 124.5);
    assert_eq!(float_of(".5"), 0.5);
    assert_eq!(parse_value_list("1e3"), Ok(vec![ValueRaw::Float("1e3")]));
    assert_eq!(parse_value_list("1.5E-2"), Ok(vec![ValueRaw::Float("1.5E-2")]));
    assert_eq!(parse_value_list(".5e+1"), Ok(vec![ValueRaw::Float(".5e+1")]));
}

#[test]
fn boolean_literals() {
    assert_eq!(parse_value_list("true"), Ok(vec![ValueRaw::Bool(true, "true")]));
    assert_eq!(parse_value_list("TRUE"), Ok(vec![ValueRaw::Bool(true, "TRUE")]));
    assert_eq!(parse_value_list("false"), Ok(vec![ValueRaw::Bool(false, "false")]));
    assert_eq!(parse_value_list("FALSE"), Ok(vec![ValueRaw::Bool(false, "FALSE")]));
    assert_eq!(parse_value_list("1"), Ok(vec![ValueRaw::Int(1, "1")]));
    assert_eq!(parse_value_list("0"), Ok(vec![ValueRaw::Int(0, "0")]));
}

#[test]
fn bare_words_are_strings() {
    assert_eq!(
        parse_value_list("--verbose north-east Zed_9"),
        Ok(vec![
            ValueRaw::String("--verbose".to_string()),
            ValueRaw::String("north-east".to_string()),
            ValueRaw::String("Zed_9".to_string())
        ])
    );
    assert_eq!(parse_value_list("-5"), Ok(vec![ValueRaw::String("-5".to_string())]));
}

#[test]
fn token_glued_to_another_fails() {
    assert_eq!(
        parse_value_list("124hello"),
        Err(ParseError { position: 3, kind: ParseErrorKind::UnexpectedInput })
    );
    assert_eq!(
        parse_value_list("a true_"),
        Err(ParseError { position: 6, kind: ParseErrorKind::UnexpectedInput })
    );
}

#[test]
fn spaces_around_the_list_are_ignored() {
    assert_eq!(parse_value_list(""), Ok(vec![]));
    assert_eq!(parse_value_list(" \t "), Ok(vec![]));
    assert_eq!(
        parse_value_list("  a\t\tb  "),
        Ok(vec![ValueRaw::String("a".to_string()), ValueRaw::String("b".to_string())])
    );
    assert_eq!(parse_arg_str(" 3 "), Ok(vec![ValueRaw::Int(3, "3")]));
}

#[test]
fn command_line_is_split_into_name_and_literals() {
    assert_eq!(
        parse_console_command(r#"log "hello world" 10 true"#),
        Ok(ConsoleCommand {
            command: "log",
            args: vec![
                ValueRaw::String("hello world".to_string()),
                ValueRaw::Int(10, "10"),
                ValueRaw::Bool(true, "true")
            ]
        })
    );
    assert_eq!(parse_full_command("  help  "), Ok(("help", vec![])));
    assert_eq!(parse_full_command("_x1"), Ok(("_x1", vec![])));
}

#[test]
fn command_line_errors() {
    assert_eq!(
        parse_full_command("  9lives"),
        Err(ParseError { position: 2, kind: ParseErrorKind::NoCommandName })
    );
    assert_eq!(
        parse_full_command(""),
        Err(ParseError { position: 0, kind: ParseErrorKind::NoCommandName })
    );
    assert_eq!(
        parse_full_command("log-x"),
        Err(ParseError { position: 3, kind: ParseErrorKind::UnexpectedInput })
    );
    assert_eq!(
        parse_full_command("log \"x"),
        Err(ParseError { position: 4, kind: ParseErrorKind::UnexpectedInput })
    );
}

#[test]
fn command_names() {
    assert_eq!(parse_command_name("log rest"), Ok((" rest", "log")));
    assert_eq!(parse_command_name("a_1-b"), Ok(("-b", "a_1")));
    assert_eq!(
        parse_command_name("1a"),
        Err(ParseError { position: 0, kind: ParseErrorKind::NoCommandName })
    );
}

#[test]
fn parse_error_messages() {
    assert_eq!(
        ParseError { position: 3, kind: ParseErrorKind::UnexpectedInput }.to_string(),
        "[error] unexpected input at column 4"
    );
    assert_eq!(
        ParseError { position: 0, kind: ParseErrorKind::NoCommandName }.to_string(),
        "[error] no command name found at column 1"
    );
}
