//! Parsing and decoding of the command lines of an in-process console.
//!
//! A line such as `log "hello world" 10 true` is read as a command name and a
//! list of literals (strings, integers, floats and booleans, each with the text
//! it was read from), and the literals are decoded against the typed fields
//! of the command the name designates.
pub mod command;
pub mod command_result;
pub mod console;
pub mod decode;
pub mod error;
pub mod grammar;
pub mod laws;
pub mod order;
pub mod parse;
pub mod registry;
pub mod schema;
pub mod text;
pub mod value;

pub use command::{
    parse_arg_str, parse_bool, parse_command_name, parse_console_command, parse_float, parse_int,
    parse_string, parse_value, ConsoleCommand,
};
pub use command_result::{CommandResult, IntoCommandResult};
pub use console::PrintConsoleLine;
pub use decode::{FloatArg, FromValue};
pub use error::{FromValueError, ParseError, ParseErrorKind};
pub use parse::{parse_full_command, parse_value_list};
pub use registry::{CommandRegistry, DispatchError, Invocation};
pub use schema::{decode_fields, CommandSchema, Field, SchemaError};
pub use value::{Value, ValueRaw, ValueRawOwned, ValueType};
