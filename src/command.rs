//! Entry points that read a whole command line, or pieces of one.
use vstd::prelude::*;

use crate::error::{ParseError, ParseErrorKind};
use crate::grammar::{
    bool_at, command_result, float_at, int_at, lemma_digits_bounds, lemma_span_end_bounds,
    lemma_value_advances, name_at, string_at, value_at, value_list_result, CharClass,
};
use crate::parse::{
    bool_token, float_token, int_token, name_token, parse_full_command, parse_value_list,
    string_token, value_token,
};
use crate::text::chars_of;
use crate::value::{literal_views, LiteralView, ValueRaw};
use vstd::string::StrSliceExecFns;

verus! {

/// A parsed command line: the command name and its arguments, both borrowed
/// from the line.
#[derive(Clone, Debug, PartialEq)]
pub struct ConsoleCommand<'a> {
    pub command: &'a str,
    pub args: Vec<ValueRaw<'a>>,
}

/// Reads an argument text as a list of literals.
pub fn parse_arg_str<'a>(s: &'a str) -> (r: Result<Vec<ValueRaw<'a>>, ParseError>)
    ensures
        match r {
            Ok(v) => value_list_result(s@) == Ok::<_, ParseError>(literal_views(v@)),
            Err(e) => value_list_result(s@) == Err::<Seq<LiteralView>, _>(e),
        },
{
    parse_value_list(s)
}

/// Reads a command line as a command name and its arguments.
pub fn parse_console_command<'a>(s: &'a str) -> (r: Result<ConsoleCommand<'a>, ParseError>)
    ensures
        match r {
            Ok(c) => command_result(s@) == Ok::<_, ParseError>((c.command@, literal_views(c.args@))),
            Err(e) => command_result(s@) == Err::<(Seq<char>, Seq<LiteralView>), _>(e),
        },
{
    match parse_full_command(s) {
        Ok((command, args)) => Ok(ConsoleCommand { command, args }),
        Err(e) => Err(e),
    }
}

/// Whether `head` and `rest` are `s` cut at `j`.
pub open spec fn cut_at(s: Seq<char>, j: int, head: Seq<char>, rest: Seq<char>) -> bool {
    0 <= j <= s.len() && head == s.subrange(0, j) && rest == s.subrange(j, s.len() as int)
}

/// The error of a piece that is not found at the start of its input.
pub open spec fn not_found() -> ParseError {
    ParseError { position: 0, kind: ParseErrorKind::UnexpectedInput }
}

fn cut<'a>(s: &'a str, len: usize, j: usize) -> (r: (&'a str, &'a str))
    requires
        len == s@.len(),
        j <= len,
    ensures
        cut_at(s@, j as int, r.0@, r.1@),
{
    (s.substring_char(0, j), s.substring_char(j, len))
}

/// Reads a quoted string at the start of `input`: what is left, and its text.
pub fn parse_string(input: &str) -> (r: Result<(&str, String), ParseError>)
    ensures
        match r {
            Ok((rest, t)) => string_at(input@, 0) matches Some((u, j)) && u == t@ && cut_at(
                input@,
                j,
                input@.subrange(0, j),
                rest@,
            ),
            Err(e) => string_at(input@, 0) is None && e == not_found(),
        },
{
    let cs = chars_of(input);
    proof {
        lemma_value_advances(cs@, 0);
    }
    match string_token(&cs, 0) {
        Some((t, j)) => {
            let (_, rest) = cut(input, cs.len(), j);
            Ok((rest, t))
        },
        None => Err(ParseError { position: 0, kind: ParseErrorKind::UnexpectedInput }),
    }
}

/// Reads an integer at the start of `input`: what is left, its value and its text.
pub fn parse_int(input: &str) -> (r: Result<(&str, (i64, &str)), ParseError>)
    ensures
        match r {
            Ok((rest, (n, raw))) => int_at(input@, 0) matches Some((m, j)) && m == n && cut_at(
                input@,
                j,
                raw@,
                rest@,
            ),
            Err(e) => int_at(input@, 0) is None && e == not_found(),
        },
{
    let cs = chars_of(input);
    proof {
        lemma_digits_bounds(cs@, 0);
    }
    match int_token(&cs, 0) {
        Some((n, j)) => {
            let (raw, rest) = cut(input, cs.len(), j);
            Ok((rest, (n, raw)))
        },
        None => Err(ParseError { position: 0, kind: ParseErrorKind::UnexpectedInput }),
    }
}

/// Reads a float at the start of `input`: what is left, and its text.
pub fn parse_float(input: &str) -> (r: Result<(&str, &str), ParseError>)
    ensures
        match r {
            Ok((rest, raw)) => float_at(input@, 0) matches Some(j) && cut_at(input@, j, raw@, rest@),
            Err(e) => float_at(input@, 0) is None && e == not_found(),
        },
{
    let cs = chars_of(input);
    proof {
        lemma_value_advances(cs@, 0);
    }
    match float_token(&cs, 0) {
        Some(j) => {
            let (raw, rest) = cut(input, cs.len(), j);
            Ok((rest, raw))
        },
        None => Err(ParseError { position: 0, kind: ParseErrorKind::UnexpectedInput }),
    }
}

/// Reads a boolean at the start of `input`: what is left, its value and its text.
pub fn parse_bool(input: &str) -> (r: Result<(&str, (bool, &str)), ParseError>)
    ensures
        match r {
            Ok((rest, (b, raw))) => bool_at(input@, 0) matches Some((c, j)) && c == b && cut_at(
                input@,
                j,
                raw@,
                rest@,
            ),
            Err(e) => bool_at(input@, 0) is None && e == not_found(),
        },
{
    let cs = chars_of(input);
    match bool_token(&cs, 0) {
        Some((b, j)) => {
            let (raw, rest) = cut(input, cs.len(), j);
            Ok((rest, (b, raw)))
        },
        None => Err(ParseError { position: 0, kind: ParseErrorKind::UnexpectedInput }),
    }
}

/// Reads one literal at the start of `input`: what is left, and the literal.
pub fn parse_value<'a>(input: &'a str) -> (r: Result<(&'a str, ValueRaw<'a>), ParseError>)
    ensures
        match r {
            Ok((rest, v)) => value_at(input@, 0) matches Some((w, j)) && w == v@ && cut_at(
                input@,
                j,
                input@.subrange(0, j),
                rest@,
            ),
            Err(e) => value_at(input@, 0) is None && e == not_found(),
        },
{
    let cs = chars_of(input);
    proof {
        lemma_value_advances(cs@, 0);
    }
    match value_token(input, &cs, 0) {
        Some((v, j)) => {
            let (_, rest) = cut(input, cs.len(), j);
            Ok((rest, v))
        },
        None => Err(ParseError { position: 0, kind: ParseErrorKind::UnexpectedInput }),
    }
}

/// Reads a command name at the start of `input`: what is left, and the name.
pub fn parse_command_name(input: &str) -> (r: Result<(&str, &str), ParseError>)
    ensures
        match r {
            Ok((rest, name)) => name_at(input@, 0) matches Some(j) && cut_at(input@, j, name@, rest@),
            Err(e) => name_at(input@, 0) is None && e == ParseError {
                position: 0,
                kind: ParseErrorKind::NoCommandName,
            },
        },
{
    let cs = chars_of(input);
    proof {
        if cs.len() > 0 {
            lemma_span_end_bounds(cs@, 1, CharClass::Ident);
        }
    }
    match name_token(&cs, 0) {
        Some(j) => {
            let (name, rest) = cut(input, cs.len(), j);
            Ok((rest, name))
        },
        None => Err(ParseError { position: 0, kind: ParseErrorKind::NoCommandName }),
    }
}

} // verus!
