use console_parser::{
    decode_fields, CommandRegistry, CommandSchema, DispatchError, Field, FloatArg, FromValue,
    FromValueError, SchemaError, Value, ValueRaw, ValueRawOwned, ValueType,
};

fn field(name: &str, value_type: ValueType, optional: bool) -> Field {
    Field {
        name: name.to_string(),
        value_type,
        optional,
        description: String::new(),
    }
}

fn owned(s: &str) -> ValueRawOwned {
    ValueRawOwned::String(s.to_string())
}

#[test]
fn string_target_keeps_the_source_text() {
    assert_eq!(String::from_value(&owned("x"), 0), Ok("x".to_string()));
    assert_eq!(
        String::from_value(&ValueRawOwned::Int(7, "007".to_string()), 0),
        Ok("007".to_string())
    );
    assert_eq!(
        String::from_value(&ValueRawOwned::Float("1_0.5".to_string()), 0),
        Ok("1_0.5".to_string())
    );
    assert_eq!(
        String::from_value(&ValueRawOwned::Bool(true, "TRUE".to_string()), 0),
        Ok("TRUE".to_string())
    );
}

#[test]
fn integer_targets_check_their_range() {
    let v = ValueRawOwned::Int(300, "300".to_string());
    assert_eq!(i64::from_value(&v, 2), Ok(300));
    assert_eq!(u16::from_value(&v, 2), Ok(300));
    assert_eq!(
        u8::from_value(&v, 2),
        Err(FromValueError::ValueTooLarge { arg_num: 2, max: 255 })
    );
    assert_eq!(
        i8::from_value(&v, 1),
        Err(FromValueError::ValueTooLarge { arg_num: 1, max: 127 })
    );
    let neg = ValueRawOwned::Int(-1, "-1".to_string());
    assert_eq!(
        u32::from_value(&neg, 0),
        Err(FromValueError::ValueTooSmall { arg_num: 0, min: 0 })
    );
    assert_eq!(
        u64::from_value(&neg, 0),
        Err(FromValueError::ValueTooSmall { arg_num: 0, min: 0 })
    );
    assert_eq!(i32::from_value(&neg, 0), Ok(-1));
    let big = ValueRawOwned::Int(i64::MAX, "9223372036854775807".to_string());
    assert_eq!(u64::from_value(&big, 0), Ok(i64::MAX as u64));
    assert_eq!(u128::from_value(&big, 0), Ok(i64::MAX as u128));
    assert_eq!(i128::from_value(&big, 0), Ok(i64::MAX as i128));
    assert_eq!(usize::from_value(&ValueRawOwned::Int(5, "5".to_string()), 0), Ok(5));
    assert_eq!(
        i16::from_value(&ValueRawOwned::Int(-40000, "x".to_string()), 3),
        Err(FromValueError::ValueTooSmall { arg_num: 3, min: -32768 })
    );
}

#[test]
fn integer_targets_reject_other_literals() {
    assert_eq!(
        i32::from_value(&owned("y"), 1),
        Err(FromValueError::UnexpectedArgType {
            arg_num: 1,
            expected: ValueType::Int,
            received: ValueType::String
        })
    );
    assert_eq!(
        i32::from_value(&ValueRawOwned::Float("1.5".to_string()), 0),
        Err(FromValueError::UnexpectedArgType {
            arg_num: 0,
            expected: ValueType::Int,
            received: ValueType::Float
        })
    );
    assert_eq!(
        isize::from_value(&ValueRawOwned::Bool(true, "true".to_string()), 0),
        Err(FromValueError::UnexpectedArgType {
            arg_num: 0,
            expected: ValueType::Int,
            received: ValueType::Bool
        })
    );
}

#[test]
fn float_target_takes_ints_and_floats() {
    assert_eq!(
        FloatArg::from_value(&ValueRawOwned::Float("1_000.25".to_string()), 0),
        Ok(FloatArg("1000.25".to_string()))
    );
    assert_eq!(
        FloatArg::from_value(&ValueRawOwned::Int(-42, "x".to_string()), 0),
        Ok(FloatArg("-42".to_string()))
    );
    assert_eq!(
        FloatArg::from_value(&ValueRawOwned::Int(i64::MIN, "x".to_string()), 0),
        Ok(FloatArg("-9223372036854775808".to_string()))
    );
    assert_eq!(
        FloatArg::from_value(&owned("a"), 4),
        Err(FromValueError::UnexpectedArgType {
            arg_num: 4,
            expected: ValueType::Float,
            received: ValueType::String
        })
    );
    assert_eq!(
        FloatArg::from_value(&ValueRawOwned::Bool(false, "0".to_string()), 0),
        Err(FromValueError::UnexpectedArgType {
            arg_num: 0,
            expected: ValueType::Float,
            received: ValueType::Bool
        })
    );
}

#[test]
fn bool_target_takes_only_booleans() {
    assert_eq!(
        bool::from_value(&ValueRawOwned::Bool(false, "FALSE".to_string()), 0),
        Ok(false)
    );
    assert_eq!(
        bool::from_value(&ValueRawOwned::Int(1, "1".to_string()), 0),
        Err(FromValueError::UnexpectedArgType {
            arg_num: 0,
            expected: ValueType::Bool,
            received: ValueType::Int
        })
    );
}

#[test]
fn cursor_and_optional_values() {
    let values = vec![ValueRawOwned::Int(1, "1".to_string())];
    let mut cursor = 0;
    assert_eq!(i64::from_value_iter(&values, &mut cursor, 0), Ok(1));
    assert_eq!(cursor, 1);
    assert_eq!(
        i64::from_value_iter(&values, &mut cursor, 1),
        Err(FromValueError::NotEnoughArgs)
    );
    assert_eq!(<Option<i64>>::from_value_iter(&values, &mut cursor, 1), Ok(None));
    assert_eq!(cursor, 1);
    let mut start = 0;
    assert_eq!(<Option<i64>>::from_value_iter(&values, &mut start, 0), Ok(Some(1)));
    let mut again = 0;
    assert_eq!(
        <Option<bool>>::from_value_iter(&values, &mut again, 0),
        Err(FromValueError::UnexpectedArgType {
            arg_num: 0,
            expected: ValueType::Bool,
            received: ValueType::Int
        })
    );
}

#[test]
fn erased_and_owned_forms() {
    assert_eq!(
        Value::from(ValueRaw::Float("1_5.0")),
        Value::Float("15.0".to_string())
    );
    assert_eq!(Value::from(ValueRaw::Int(3, "03")), Value::Int(3));
    assert_eq!(
        ValueRawOwned::from(ValueRaw::Bool(true, "TRUE")),
        ValueRawOwned::Bool(true, "TRUE".to_string())
    );
    assert_eq!(
        Value::from(ValueRawOwned::String("s".to_string())),
        Value::String("s".to_string())
    );
    assert_eq!(
        Value::from_value(&ValueRawOwned::Bool(false, "0".to_string()), 0),
        Ok(Value::Bool(false))
    );
}

#[test]
fn decode_error_names_the_argument_position() {
    let schema = CommandSchema::new(
        "cmd".to_string(),
        String::new(),
        vec![field("a", ValueType::String, false), field("b", ValueType::Int, false)],
        String::new(),
    )
    .unwrap();
    assert_eq!(
        decode_fields(&schema, &[owned("x"), owned("y")]),
        Err(FromValueError::UnexpectedArgType {
            arg_num: 1,
            expected: ValueType::Int,
            received: ValueType::String
        })
    );
}

#[test]
fn optional_trailing_field() {
    let schema = CommandSchema::new(
        "cmd".to_string(),
        String::new(),
        vec![field("required", ValueType::String, false), field("optional", ValueType::Int, true)],
        String::new(),
    )
    .unwrap();
    assert_eq!(
        decode_fields(&schema, &[owned("x")]),
        Ok(vec![Some(Value::String("x".to_string())), None])
    );
    assert_eq!(decode_fields(&schema, &[]), Err(FromValueError::NotEnoughArgs));
}

#[test]
fn required_after_optional_is_refused() {
    assert_eq!(
        CommandSchema::new(
            "cmd".to_string(),
            String::new(),
            vec![field("optional", ValueType::Int, true), field("required", ValueType::String, false)],
            String::new(),
        )
        .err(),
        Some(SchemaError::RequiredAfterOptional { index: 1 })
    );
    let mut registry = CommandRegistry::new();
    assert_eq!(
        registry.register(
            "cmd".to_string(),
            String::new(),
            vec![field("optional", ValueType::Int, true), field("required", ValueType::String, false)],
            String::new(),
        ),
        Err(SchemaError::RequiredAfterOptional { index: 1 })
    );
    assert!(registry.find("cmd").is_none());
}

#[test]
fn schema_names_and_sizes() {
    assert_eq!(
        CommandSchema::new("not a name".to_string(), String::new(), vec![], String::new()).err(),
        Some(SchemaError::InvalidName)
    );
    let many: Vec<Field> = (0..257).map(|_| field("f", ValueType::Int, false)).collect();
    assert_eq!(
        CommandSchema::new("big".to_string(), String::new(), many, String::new()).err(),
        Some(SchemaError::TooManyFields)
    );
}

#[test]
fn end_to_end_log_command() {
    let line = r#"log "hello world" 10 true"#;
    let mut registry = CommandRegistry::new();
    registry
        .register(
            "log".to_string(),
            "Prints given arguments to the console".to_string(),
            vec![field("msg", ValueType::String, false), field("num", ValueType::Int, true)],
            "log <msg> [num]".to_string(),
        )
        .unwrap();
    assert_eq!(
        registry.dispatch(line).err(),
        Some(DispatchError::Decode {
            error: FromValueError::TooManyArgs,
            help: "log <msg> [num]".to_string()
        })
    );
    assert_eq!(
        registry.register(
            "log".to_string(),
            "Prints given arguments to the console".to_string(),
            vec![
                field("msg", ValueType::String, false),
                field("num", ValueType::Int, true),
                field("flag", ValueType::Bool, false),
            ],
            "log <msg> [num] <flag>".to_string(),
        ),
        Err(SchemaError::RequiredAfterOptional { index: 2 })
    );
    registry
        .register(
            "log".to_string(),
            "Prints given arguments to the console".to_string(),
            vec![
                field("msg", ValueType::String, false),
                field("num", ValueType::Int, true),
                field("flag", ValueType::Bool, true),
            ],
            "log <msg> [num] [flag]".to_string(),
        )
        .unwrap();
    let inv = registry.dispatch(line).ok().unwrap();
    assert_eq!(inv.name, "log");
    assert_eq!(
        inv.values,
        vec![
            Some(Value::String("hello world".to_string())),
            Some(Value::Int(10)),
            Some(Value::Bool(true))
        ]
    );
}

#[test]
fn dispatch_errors() {
    let mut registry = CommandRegistry::new();
    registry
        .register(
            "echo".to_string(),
            "Echoes its argument".to_string(),
            vec![field("text", ValueType::String, false)],
            "echo <text>".to_string(),
        )
        .unwrap();
    assert_eq!(
        registry.dispatch("nope 1").err(),
        Some(DispatchError::UnknownCommand("nope".to_string()))
    );
    assert!(matches!(registry.dispatch("echo \"x").err(), Some(DispatchError::Parse(_))));
    assert_eq!(
        registry.dispatch("echo").err(),
        Some(DispatchError::Decode {
            error: FromValueError::NotEnoughArgs,
            help: "echo <text>".to_string()
        })
    );
    let inv = registry.dispatch("echo 2.50").ok().unwrap();
    assert_eq!(inv.values, vec![Some(Value::String("2.50".to_string()))]);
    assert_eq!(registry.find("echo").unwrap().help(), "echo <text>");
    assert_eq!(
        registry.dispatch("nope").err().unwrap().to_string(),
        "error: Invalid command"
    );
    assert_eq!(
        registry.dispatch("echo").err().unwrap().to_string(),
        "[error] not enough arguments provided"
    );
    assert_eq!(
        registry.dispatch("echo 'x").err().unwrap().to_string(),
        "[error] unexpected input at column 6"
    );
}

#[test]
fn float_fields_hold_decimal_text() {
    let schema = CommandSchema::new(
        "scale".to_string(),
        String::new(),
        vec![field("x", ValueType::Float, false), field("y", ValueType::Float, true)],
        String::new(),
    )
    .unwrap();
    assert_eq!(
        decode_fields(
            &schema,
            &[ValueRawOwned::Float("1_2.5".to_string()), ValueRawOwned::Int(3, "3".to_string())]
        ),
        Ok(vec![Some(Value::Float("12.5".to_string())), Some(Value::Float("3".to_string()))])
    );
}

#[test]
fn decode_error_messages() {
    assert_eq!(
        FromValueError::UnexpectedArgType {
            arg_num: 1,
            expected: ValueType::Int,
            received: ValueType::String
        }
        .to_string(),
        "[error] expected 'int' but got 'string' for arg #2"
    );
    assert_eq!(
        FromValueError::NotEnoughArgs.to_string(),
        "[error] not enough arguments provided"
    );
    assert_eq!(
        FromValueError::ValueTooLarge { arg_num: 0, max: 255 }.to_string(),
        "[error] number is too large for arg #1 (max 255)"
    );
    assert_eq!(
        FromValueError::ValueTooSmall { arg_num: 254, min: -128 }.to_string(),
        "[error] number is too small for arg #255 (min -128)"
    );
    assert_eq!(
        FromValueError::TooManyArgs.to_string(),
        "[error] too many arguments provided"
    );
    assert_eq!(
        FromValueError::Custom("oops".to_string()).to_string(),
        "[error] oops"
    );
    assert_eq!(ValueType::Float.to_string(), "float");
    assert_eq!(ValueType::Bool.to_string(), "bool");
}

#[test]
fn help_listing_is_sorted_and_padded() {
    let mut registry = CommandRegistry::new();
    registry
        .register("help".to_string(), "Prints available arguments and usage".to_string(), vec![field("command", ValueType::String, true)], "help [command]".to_string())
        .unwrap();
    registry
        .register("clear".to_string(), "Clears the console".to_string(), vec![], "clear".to_string())
        .unwrap();
    registry
        .register("exit".to_string(), "Exits the app".to_string(), vec![], "exit".to_string())
        .unwrap();
    assert_eq!(
        registry.help_lines(),
        vec![
            "Available commands:".to_string(),
            "  clear - Clears the console".to_string(),
            "  exit  - Exits the app".to_string(),
            "  help  - Prints available arguments and usage".to_string(),
            String::new(),
        ]
    );
    assert_eq!(registry.help_for("help"), "help [command]");
    assert_eq!(registry.help_for("nope"), "Command 'nope' does not exist");
    assert_eq!(
        CommandRegistry::new().help_lines(),
        vec!["Available commands:".to_string(), String::new()]
    );
}
