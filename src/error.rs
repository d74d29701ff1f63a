//! The errors of parsing a command line and of decoding its arguments.
use vstd::prelude::*;

use crate::text::{decimal, decimal_text, signed_decimal, unsigned_text};
use crate::value::ValueType;
use vstd::string::StringExecFns;

verus! {

/// What went wrong in a command line.
#[derive(Clone, Copy, Debug, PartialEq, Eq)]
pub enum ParseErrorKind {
    /// The line does not start with a command name.
    NoCommandName,
    /// Text is left that no token of the grammar takes.
    UnexpectedInput,
}

/// A command line that cannot be parsed, and the position (in characters,
/// from 0) at which it went wrong.
#[derive(Clone, Copy, Debug, PartialEq, Eq)]
pub struct ParseError {
    pub position: usize,
    pub kind: ParseErrorKind,
}

/// Error when trying to decode values.
#[derive(Clone, Debug, PartialEq)]
pub enum FromValueError {
    /// Not enough arguments provided
    NotEnoughArgs,
    /// Unexpected argument type
    UnexpectedArgType {
        /// Argument number, starting from 0
        arg_num: u8,
        /// Expected value type
        expected: ValueType,
        /// Received value type
        received: ValueType,
    },
    /// Value too large
    ValueTooLarge {
        /// Argument number, starting from 0
        arg_num: u8,
        /// Maximum allowed value
        max: i64,
    },
    /// Value too small: negative for an unsigned type, or below the
    /// smallest value of a signed one
    ValueTooSmall {
        /// Argument number, starting from 0
        arg_num: u8,
        /// Minimum allowed value
        min: i64,
    },
    /// More arguments provided than a command takes
    TooManyArgs,
    /// Custom error
    Custom(String),
}

/// The name of a value type, as messages give it.
pub open spec fn value_type_name(t: ValueType) -> Seq<char> {
    match t {
        ValueType::String => "string"@,
        ValueType::Int => "int"@,
        ValueType::Float => "float"@,
        ValueType::Bool => "bool"@,
    }
}

/// The one-line message of a decode error. Arguments are numbered from 1 in it.
pub open spec fn error_message(e: FromValueError) -> Seq<char> {
    match e {
        FromValueError::NotEnoughArgs => "[error] not enough arguments provided"@,
        FromValueError::UnexpectedArgType { arg_num, expected, received } => "[error] expected '"@
            + value_type_name(expected) + "' but got '"@ + value_type_name(received) + "' for arg #"@
            + signed_decimal(arg_num + 1),
        FromValueError::ValueTooLarge { arg_num, max } => "[error] number is too large for arg #"@
            + signed_decimal(arg_num + 1) + " (max "@ + signed_decimal(max as int) + ")"@,
        FromValueError::ValueTooSmall { arg_num, min } => "[error] number is too small for arg #"@
            + signed_decimal(arg_num + 1) + " (min "@ + signed_decimal(min as int) + ")"@,
        FromValueError::TooManyArgs => "[error] too many arguments provided"@,
        FromValueError::Custom(msg) => "[error] "@ + msg@,
    }
}

/// The one-line message of a parse error. Columns are numbered from 1 in it.
pub open spec fn parse_error_message(e: ParseError) -> Seq<char> {
    match e.kind {
        ParseErrorKind::NoCommandName => "[error] no command name found at column "@
            + decimal((e.position + 1) as nat),
        ParseErrorKind::UnexpectedInput => "[error] unexpected input at column "@
            + decimal((e.position + 1) as nat),
    }
}

impl ValueType {
    /// The name of this value type.
    pub fn to_string(&self) -> (r: String)
        ensures
            r@ == value_type_name(*self),
    {
        match self {
            ValueType::String => String::from_str("string"),
            ValueType::Int => String::from_str("int"),
            ValueType::Float => String::from_str("float"),
            ValueType::Bool => String::from_str("bool"),
        }
    }
}

impl FromValueError {
    /// The one-line message of this error.
    pub fn to_string(&self) -> (r: String)
        ensures
            r@ == error_message(*self),
    {
        match self {
            FromValueError::NotEnoughArgs => String::from_str("[error] not enough arguments provided"),
            FromValueError::UnexpectedArgType { arg_num, expected, received } => {
                let mut m = String::from_str("[error] expected '");
                m.append(expected.to_string().as_str());
                m.append("' but got '");
                m.append(received.to_string().as_str());
                m.append("' for arg #");
                m.append(decimal_text(*arg_num as i64 + 1).as_str());
                m
            },
            FromValueError::ValueTooLarge { arg_num, max } => {
                let mut m = String::from_str("[error] number is too large for arg #");
                m.append(decimal_text(*arg_num as i64 + 1).as_str());
                m.append(" (max ");
                m.append(decimal_text(*max).as_str());
                m.append(")");
                m
            },
            FromValueError::ValueTooSmall { arg_num, min } => {
                let mut m = String::from_str("[error] number is too small for arg #");
                m.append(decimal_text(*arg_num as i64 + 1).as_str());
                m.append(" (min ");
                m.append(decimal_text(*min).as_str());
                m.append(")");
                m
            },
            FromValueError::TooManyArgs => String::from_str("[error] too many arguments provided"),
            FromValueError::Custom(msg) => {
                let mut m = String::from_str("[error] ");
                m.append(msg.as_str());
                m
            },
        }
    }
}

impl ParseError {
    /// The one-line message of this error.
    pub fn to_string(&self) -> (r: String)
        ensures
            r@ == parse_error_message(*self),
    {
        let mut m = match self.kind {
            ParseErrorKind::NoCommandName => String::from_str("[error] no command name found at column "),
            ParseErrorKind::UnexpectedInput => String::from_str("[error] unexpected input at column "),
        };
        m.append(unsigned_text(self.position as u128 + 1).as_str());
        m
    }
}

} // verus!
