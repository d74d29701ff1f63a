//! The grammar of command lines, as spec functions over the characters of the input.
//!
//! Each `*_at` function reads at position `i` of `s` and says what is recognised there
//! and where it ends. Alternatives are tried in order and the first that matches wins.
use vstd::prelude::*;

use crate::error::{ParseError, ParseErrorKind};
use crate::value::LiteralView;

verus! {

/// Classes of characters that a run may be made of.
#[derive(Clone, Copy, Debug, PartialEq, Eq)]
pub enum CharClass {
    /// space or tab
    Space,
    /// space, tab, carriage return or line feed
    LineSpace,
    /// decimal digit or underscore
    DigitOrUnderscore,
    /// ASCII letter, decimal digit or underscore
    Ident,
    /// ASCII letter, decimal digit, underscore or hyphen
    Word,
    /// any character but the given quote and the backslash
    StrBody(char),
}

pub open spec fn is_digit(c: char) -> bool {
    '0' <= c && c <= '9'
}

pub open spec fn is_alpha(c: char) -> bool {
    ('a' <= c && c <= 'z') || ('A' <= c && c <= 'Z')
}

pub open spec fn is_hex_digit(c: char) -> bool {
    is_digit(c) || ('a' <= c && c <= 'f') || ('A' <= c && c <= 'F')
}

pub open spec fn is_quote(c: char) -> bool {
    c == '"' || c == '\''
}

pub open spec fn in_class(c: char, class: CharClass) -> bool {
    match class {
        CharClass::Space => c == ' ' || c == '\t',
        CharClass::LineSpace => c == ' ' || c == '\t' || c == '\r' || c == '\n',
        CharClass::DigitOrUnderscore => is_digit(c) || c == '_',
        CharClass::Ident => is_alpha(c) || is_digit(c) || c == '_',
        CharClass::Word => is_alpha(c) || is_digit(c) || c == '_' || c == '-',
        CharClass::StrBody(q) => c != q && c != '\\',
    }
}

/// The end of the longest run of characters of `class` that starts at `i`.
pub open spec fn span_end(s: Seq<char>, i: int, class: CharClass) -> int
    decreases s.len() - i,
{
    if 0 <= i < s.len() && in_class(s[i], class) {
        span_end(s, i + 1, class)
    } else {
        i
    }
}

/// Whether `t` stands in `s` at position `i`.
pub open spec fn lit_at(s: Seq<char>, i: int, t: Seq<char>) -> bool {
    0 <= i && i + t.len() <= s.len() && s.subrange(i, i + t.len()) == t
}

/// A run of digits and underscores that starts with a digit.
pub open spec fn digits_at(s: Seq<char>, i: int) -> Option<int> {
    if 0 <= i < s.len() && is_digit(s[i]) {
        Some(span_end(s, i + 1, CharClass::DigitOrUnderscore))
    } else {
        None
    }
}

pub open spec fn digit_value(c: char) -> nat {
    (c as int - '0' as int) as nat
}

/// The number that a run of digits writes, underscores ignored.
pub open spec fn digits_value(t: Seq<char>) -> nat
    decreases t.len(),
{
    if t.len() == 0 {
        0
    } else if is_digit(t.last()) {
        digits_value(t.drop_last()) * 10 + digit_value(t.last())
    } else {
        digits_value(t.drop_last())
    }
}

/// An integer token: its value, which must fit in an `i64`, and its end.
pub open spec fn int_at(s: Seq<char>, i: int) -> Option<(i64, int)> {
    match digits_at(s, i) {
        Some(j) => if digits_value(s.subrange(i, j)) <= i64::MAX {
            Some((digits_value(s.subrange(i, j)) as i64, j))
        } else {
            None
        },
        None => None,
    }
}

/// An exponent: `e` or `E`, an optional sign, and digits.
pub open spec fn exponent_at(s: Seq<char>, i: int) -> Option<int> {
    if 0 <= i < s.len() && (s[i] == 'e' || s[i] == 'E') {
        if i + 1 < s.len() && (s[i + 1] == '+' || s[i + 1] == '-') {
            digits_at(s, i + 2)
        } else {
            digits_at(s, i + 1)
        }
    } else {
        None
    }
}

/// A float token, of one of the shapes `.D[exp]`, `D[.D]exp` and `D.[D]`
/// (`D` digits, `exp` an exponent): its end.
pub open spec fn float_at(s: Seq<char>, i: int) -> Option<int> {
    if 0 <= i < s.len() && s[i] == '.' {
        match digits_at(s, i + 1) {
            Some(j) => match exponent_at(s, j) {
                Some(e) => Some(e),
                None => Some(j),
            },
            None => None,
        }
    } else {
        match digits_at(s, i) {
            Some(j) => {
                let point = j < s.len() && s[j] == '.';
                let k = if point {
                    match digits_at(s, j + 1) {
                        Some(m) => m,
                        None => j,
                    }
                } else {
                    j
                };
                match exponent_at(s, k) {
                    Some(e) => Some(e),
                    None => if point {
                        match digits_at(s, j + 1) {
                            Some(m) => Some(m),
                            None => Some(j + 1),
                        }
                    } else {
                        None
                    },
                }
            },
            None => None,
        }
    }
}

/// A boolean token: `true`, `TRUE` or `1`; `false`, `FALSE` or `0`.
pub open spec fn bool_at(s: Seq<char>, i: int) -> Option<(bool, int)> {
    if lit_at(s, i, seq!['t', 'r', 'u', 'e']) || lit_at(s, i, seq!['T', 'R', 'U', 'E']) {
        Some((true, i + 4))
    } else if lit_at(s, i, seq!['1']) {
        Some((true, i + 1))
    } else if lit_at(s, i, seq!['f', 'a', 'l', 's', 'e']) || lit_at(
        s,
        i,
        seq!['F', 'A', 'L', 'S', 'E'],
    ) {
        Some((false, i + 5))
    } else if lit_at(s, i, seq!['0']) {
        Some((false, i + 1))
    } else {
        None
    }
}

/// A bare word: letters, digits, underscores and hyphens.
pub open spec fn word_at(s: Seq<char>, i: int) -> Option<int> {
    if 0 <= i < s.len() && in_class(s[i], CharClass::Word) {
        Some(span_end(s, i + 1, CharClass::Word))
    } else {
        None
    }
}

/// The end of at most `n` hexadecimal digits from `i`.
pub open spec fn hex_end(s: Seq<char>, i: int, n: nat) -> int
    decreases n,
{
    if n > 0 && 0 <= i < s.len() && is_hex_digit(s[i]) {
        hex_end(s, i + 1, (n - 1) as nat)
    } else {
        i
    }
}

pub open spec fn hex_digit_value(c: char) -> nat {
    if is_digit(c) {
        digit_value(c)
    } else if 'a' <= c && c <= 'f' {
        (c as int - 'a' as int + 10) as nat
    } else {
        (c as int - 'A' as int + 10) as nat
    }
}

pub open spec fn hex_value(t: Seq<char>) -> nat
    decreases t.len(),
{
    if t.len() == 0 {
        0
    } else {
        hex_value(t.drop_last()) * 16 + hex_digit_value(t.last())
    }
}

/// Whether `v` is a Unicode scalar value, that is the code of a `char`.
pub open spec fn is_scalar(v: nat) -> bool {
    v < 0xD800 || (0xE000 <= v && v <= 0x10FFFF)
}

/// `u{H}` with one to six hexadecimal digits `H` that give a scalar value.
pub open spec fn unicode_at(s: Seq<char>, i: int) -> Option<(char, int)> {
    if lit_at(s, i, seq!['u', '{']) {
        let j = hex_end(s, i + 2, 6);
        if j > i + 2 && j < s.len() && s[j] == '}' && is_scalar(hex_value(s.subrange(i + 2, j))) {
            Some((hex_value(s.subrange(i + 2, j)) as char, j + 1))
        } else {
            None
        }
    } else {
        None
    }
}

/// What follows a backslash in an escape of one character.
pub open spec fn escape_at(s: Seq<char>, i: int) -> Option<(char, int)> {
    if 0 <= i < s.len() {
        let c = s[i];
        if c == 'u' {
            unicode_at(s, i)
        } else if c == 'n' {
            Some(('\n', i + 1))
        } else if c == 'r' {
            Some(('\r', i + 1))
        } else if c == 't' {
            Some(('\t', i + 1))
        } else if c == 'b' {
            Some(('\u{08}', i + 1))
        } else if c == 'f' {
            Some(('\u{0C}', i + 1))
        } else if c == '\\' || c == '/' || c == '"' || c == '\'' {
            Some((c, i + 1))
        } else {
            None
        }
    } else {
        None
    }
}

/// One piece of the inside of a string quoted by `q`: a run of plain characters,
/// an escaped character, or a backslash and whitespace, which stand for nothing.
pub open spec fn fragment_at(s: Seq<char>, i: int, q: char) -> Option<(Seq<char>, int)> {
    if 0 <= i < s.len() && in_class(s[i], CharClass::StrBody(q)) {
        let e = span_end(s, i, CharClass::StrBody(q));
        Some((s.subrange(i, e), e))
    } else if 0 <= i < s.len() && s[i] == '\\' {
        match escape_at(s, i + 1) {
            Some((c, j)) => Some((seq![c], j)),
            None => if i + 1 < s.len() && in_class(s[i + 1], CharClass::LineSpace) {
                Some((Seq::empty(), span_end(s, i + 2, CharClass::LineSpace)))
            } else {
                None
            },
        }
    } else {
        None
    }
}

/// The inside of a string quoted by `q`: the text of as many fragments as
/// follow one another from `i`, and where they end.
pub open spec fn body_at(s: Seq<char>, i: int, q: char) -> (Seq<char>, int)
    decreases s.len() - i,
{
    match fragment_at(s, i, q) {
        Some((t, j)) => {
            proof {
                lemma_fragment_advances(s, i, q);
            }
            let (rest, k) = body_at(s, j, q);
            (t + rest, k)
        },
        None => (Seq::empty(), i),
    }
}

/// A string in double or single quotes: its text and its end.
pub open spec fn string_at(s: Seq<char>, i: int) -> Option<(Seq<char>, int)> {
    if 0 <= i < s.len() && is_quote(s[i]) {
        let (t, k) = body_at(s, i + 1, s[i]);
        if k < s.len() && s[k] == s[i] {
            Some((t, k + 1))
        } else {
            None
        }
    } else {
        None
    }
}

/// One literal token: a string, else a float, else an integer, else a boolean,
/// else a bare word.
pub open spec fn value_at(s: Seq<char>, i: int) -> Option<(LiteralView, int)> {
    match string_at(s, i) {
        Some((t, j)) => Some((LiteralView::Str(t), j)),
        None => match float_at(s, i) {
            Some(j) => Some((LiteralView::Float(s.subrange(i, j)), j)),
            None => match int_at(s, i) {
                Some((n, j)) => Some((LiteralView::Int(n, s.subrange(i, j)), j)),
                None => match bool_at(s, i) {
                    Some((b, j)) => Some((LiteralView::Bool(b, s.subrange(i, j)), j)),
                    None => match word_at(s, i) {
                        Some(j) => Some((LiteralView::Str(s.subrange(i, j)), j)),
                        None => None,
                    },
                },
            },
        },
    }
}

/// The tokens that follow the one that ends at `j`, each after spaces, and
/// the end of the last one.
pub open spec fn values_after(s: Seq<char>, j: int) -> (Seq<LiteralView>, int)
    decreases s.len() - j,
{
    let m = span_end(s, j, CharClass::Space);
    if j < m {
        match value_at(s, m) {
            Some((v, k)) => {
                proof {
                    lemma_span_end_bounds(s, j, CharClass::Space);
                    lemma_value_advances(s, m);
                }
                let (rest, e) = values_after(s, k);
                (seq![v] + rest, e)
            },
            None => (Seq::empty(), j),
        }
    } else {
        (Seq::empty(), j)
    }
}

/// The tokens of a list separated by spaces that starts at `i` after optional
/// spaces, and the position after the spaces that follow the last token.
pub open spec fn value_list_at(s: Seq<char>, i: int) -> (Seq<LiteralView>, int) {
    let m = span_end(s, i, CharClass::Space);
    match value_at(s, m) {
        Some((v, k)) => {
            let (rest, e) = values_after(s, k);
            (seq![v] + rest, span_end(s, e, CharClass::Space))
        },
        None => (Seq::empty(), m),
    }
}

/// A command name: a letter or underscore, then letters, digits and underscores.
pub open spec fn name_at(s: Seq<char>, i: int) -> Option<int> {
    if 0 <= i < s.len() && (is_alpha(s[i]) || s[i] == '_') {
        Some(span_end(s, i + 1, CharClass::Ident))
    } else {
        None
    }
}

/// A whole argument text read as a list of literals.
pub open spec fn value_list_result(s: Seq<char>) -> Result<Seq<LiteralView>, ParseError> {
    let (vs, e) = value_list_at(s, 0);
    if e == s.len() {
        Ok(vs)
    } else {
        Err(ParseError { position: e as usize, kind: ParseErrorKind::UnexpectedInput })
    }
}

/// A whole command line read as a command name and its list of literals.
/// Spaces and tabs around the line are ignored; the name is followed by
/// spaces or tabs before any literal.
pub open spec fn command_result(s: Seq<char>) -> Result<(Seq<char>, Seq<LiteralView>), ParseError> {
    let m = span_end(s, 0, CharClass::Space);
    match name_at(s, m) {
        None => Err(ParseError { position: m as usize, kind: ParseErrorKind::NoCommandName }),
        Some(n) => {
            let (args, e) = if span_end(s, n, CharClass::Space) > n {
                value_list_at(s, n)
            } else {
                (Seq::empty(), n)
            };
            if e == s.len() {
                Ok((s.subrange(m, n), args))
            } else {
                Err(ParseError { position: e as usize, kind: ParseErrorKind::UnexpectedInput })
            }
        },
    }
}

pub proof fn lemma_span_end_bounds(s: Seq<char>, i: int, class: CharClass)
    requires
        0 <= i <= s.len(),
    ensures
        i <= span_end(s, i, class) <= s.len(),
        i < s.len() && in_class(s[i], class) ==> i < span_end(s, i, class),
        forall|k: int| i <= k < span_end(s, i, class) ==> in_class(#[trigger] s[k], class),
        span_end(s, i, class) < s.len() ==> !in_class(s[span_end(s, i, class)], class),
    decreases s.len() - i,
{
    if i < s.len() && in_class(s[i], class) {
        lemma_span_end_bounds(s, i + 1, class);
    }
}

pub proof fn lemma_digits_bounds(s: Seq<char>, i: int)
    ensures
        digits_at(s, i) matches Some(j) ==> i < j <= s.len(),
{
    if 0 <= i < s.len() && is_digit(s[i]) {
        lemma_span_end_bounds(s, i + 1, CharClass::DigitOrUnderscore);
    }
}

pub proof fn lemma_hex_end_bounds(s: Seq<char>, i: int, n: nat)
    requires
        0 <= i <= s.len(),
    ensures
        i <= hex_end(s, i, n) <= s.len(),
        hex_end(s, i, n) <= i + n,
    decreases n,
{
    if n > 0 && i < s.len() && is_hex_digit(s[i]) {
        lemma_hex_end_bounds(s, i + 1, (n - 1) as nat);
    }
}

pub proof fn lemma_fragment_advances(s: Seq<char>, i: int, q: char)
    ensures
        fragment_at(s, i, q) matches Some((t, j)) ==> i < j <= s.len(),
{
    if 0 <= i < s.len() {
        lemma_span_end_bounds(s, i, CharClass::StrBody(q));
        if i + 2 <= s.len() {
            lemma_span_end_bounds(s, i + 2, CharClass::LineSpace);
        }
        if i + 3 <= s.len() {
            lemma_hex_end_bounds(s, i + 3, 6);
        }
    }
}

pub proof fn lemma_body_bounds(s: Seq<char>, i: int, q: char)
    requires
        0 <= i <= s.len(),
    ensures
        i <= body_at(s, i, q).1 <= s.len(),
    decreases s.len() - i,
{
    lemma_fragment_advances(s, i, q);
    if let Some((t, j)) = fragment_at(s, i, q) {
        lemma_body_bounds(s, j, q);
    }
}

pub proof fn lemma_value_advances(s: Seq<char>, i: int)
    requires
        0 <= i <= s.len(),
    ensures
        value_at(s, i) matches Some((v, j)) ==> i < j <= s.len(),
{
    if i < s.len() {
        lemma_body_bounds(s, i + 1, s[i]);
        lemma_digits_bounds(s, i);
        lemma_digits_bounds(s, i + 1);
        lemma_span_end_bounds(s, i + 1, CharClass::Word);
        if let Some(j) = digits_at(s, i) {
            lemma_digits_bounds(s, j + 1);
            let k = if j < s.len() && s[j] == '.' {
                match digits_at(s, j + 1) {
                    Some(m) => m,
                    None => j,
                }
            } else {
                j
            };
            lemma_digits_bounds(s, k + 1);
            lemma_digits_bounds(s, k + 2);
        }
        if let Some(j) = digits_at(s, i + 1) {
            lemma_digits_bounds(s, j + 1);
            lemma_digits_bounds(s, j + 2);
        }
    }
}

} // verus!
