//! The parser of command lines. Each function reads the characters of the
//! input from a position and returns what the grammar recognises there.
use vstd::prelude::*;

use crate::error::{ParseError, ParseErrorKind};
use crate::grammar::{
    body_at, bool_at, command_result, digit_value, digits_at, digits_value, escape_at,
    exponent_at, float_at, fragment_at, hex_digit_value, hex_end, hex_value, in_class, int_at,
    is_digit, is_hex_digit, is_scalar, lemma_body_bounds, lemma_digits_bounds,
    lemma_fragment_advances, lemma_hex_end_bounds, lemma_span_end_bounds, lemma_value_advances,
    lit_at, name_at, span_end, string_at, unicode_at, value_at, value_list_at, value_list_result,
    values_after, word_at, CharClass,
};
use crate::text::{chars_of, push_char, push_range, string_of_range};
use crate::value::{literal_views, LiteralView, ValueRaw};
use vstd::string::StrSliceExecFns;

verus! {

pub open spec fn as_int(o: Option<usize>) -> Option<int> {
    match o {
        Some(j) => Some(j as int),
        None => None,
    }
}

fn char_in_class(c: char, class: CharClass) -> (r: bool)
    ensures
        r == in_class(c, class),
{
    match class {
        CharClass::Space => c == ' ' || c == '\t',
        CharClass::LineSpace => c == ' ' || c == '\t' || c == '\r' || c == '\n',
        CharClass::DigitOrUnderscore => ('0' <= c && c <= '9') || c == '_',
        CharClass::Ident => ('a' <= c && c <= 'z') || ('A' <= c && c <= 'Z') || ('0' <= c && c
            <= '9') || c == '_',
        CharClass::Word => ('a' <= c && c <= 'z') || ('A' <= c && c <= 'Z') || ('0' <= c && c
            <= '9') || c == '_' || c == '-',
        CharClass::StrBody(q) => c != q && c != '\\',
    }
}

fn char_is_digit(c: char) -> (r: bool)
    ensures
        r == is_digit(c),
{
    '0' <= c && c <= '9'
}

/// The end of the run of characters of `class` from `i`.
pub fn span(cs: &Vec<char>, i: usize, class: CharClass) -> (j: usize)
    requires
        i <= cs.len(),
    ensures
        j == span_end(cs@, i as int, class),
{
    let mut j = i;
    while j < cs.len() && char_in_class(cs[j], class)
        invariant
            i <= j <= cs.len(),
            span_end(cs@, i as int, class) == span_end(cs@, j as int, class),
        decreases cs.len() - j,
    {
        j = j + 1;
    }
    j
}

fn digits(cs: &Vec<char>, i: usize) -> (r: Option<usize>)
    requires
        i <= cs.len(),
    ensures
        as_int(r) == digits_at(cs@, i as int),
{
    if i < cs.len() && char_is_digit(cs[i]) {
        proof {
            lemma_span_end_bounds(cs@, i + 1, CharClass::DigitOrUnderscore);
        }
        Some(span(cs, i + 1, CharClass::DigitOrUnderscore))
    } else {
        None
    }
}

proof fn lemma_digits_value_grows(t: Seq<char>, n: int)
    requires
        0 <= n <= t.len(),
    ensures
        digits_value(t.take(n)) <= digits_value(t),
    decreases t.len(),
{
    if n < t.len() {
        assert(t.drop_last().take(n) =~= t.take(n));
        lemma_digits_value_grows(t.drop_last(), n);
        assert(digits_value(t.drop_last()) <= digits_value(t));
    } else {
        assert(t.take(n) =~= t);
    }
}

/// An integer token at `i`: its value and its end.
pub fn int_token(cs: &Vec<char>, i: usize) -> (r: Option<(i64, usize)>)
    requires
        i <= cs.len(),
    ensures
        match r {
            Some((n, j)) => int_at(cs@, i as int) == Some((n, j as int)),
            None => int_at(cs@, i as int) is None,
        },
{
    let j = match digits(cs, i) {
        Some(j) => j,
        None => return None,
    };
    proof {
        lemma_digits_bounds(cs@, i as int);
    }
    let ghost t = cs@.subrange(i as int, j as int);
    let mut acc: i64 = 0;
    let mut k = i;
    while k < j
        invariant
            i <= k <= j <= cs.len(),
            t == cs@.subrange(i as int, j as int),
            digits_at(cs@, i as int) == Some(j as int),
            acc as int == digits_value(cs@.subrange(i as int, k as int)),
            acc >= 0,
        decreases j - k,
    {
        let c = cs[k];
        assert(cs@.subrange(i as int, k + 1).drop_last() =~= cs@.subrange(i as int, k as int));
        if char_is_digit(c) {
            let d: i64 = c as i64 - '0' as i64;
            assert(d == digit_value(c));
            if acc > (i64::MAX - d) / 10 {
                proof {
                    assert(acc * 10 + d > i64::MAX) by (nonlinear_arith)
                        requires
                            acc > (i64::MAX - d) / 10,
                            0 <= d <= 9,
                    ;
                    let u = cs@.subrange(i as int, k + 1);
                    assert(u.last() == c);
                    assert(digits_value(u) == acc * 10 + d);
                    assert(t.take(k - i + 1) =~= u);
                    lemma_digits_value_grows(t, k - i + 1);
                }
                return None;
            }
            proof {
                assert(acc * 10 + d <= i64::MAX) by (nonlinear_arith)
                    requires
                        acc <= (i64::MAX - d) / 10,
                        0 <= d <= 9,
                ;
            }
            acc = acc * 10 + d;
        }
        k = k + 1;
    }
    Some((acc, j))
}

fn exponent(cs: &Vec<char>, i: usize) -> (r: Option<usize>)
    requires
        i <= cs.len(),
    ensures
        as_int(r) == exponent_at(cs@, i as int),
{
    if i < cs.len() && (cs[i] == 'e' || cs[i] == 'E') {
        if i + 1 < cs.len() && (cs[i + 1] == '+' || cs[i + 1] == '-') {
            digits(cs, i + 2)
        } else {
            digits(cs, i + 1)
        }
    } else {
        None
    }
}

/// A float token at `i`: its end.
pub fn float_token(cs: &Vec<char>, i: usize) -> (r: Option<usize>)
    requires
        i <= cs.len(),
    ensures
        as_int(r) == float_at(cs@, i as int),
{
    if i < cs.len() && cs[i] == '.' {
        proof {
            lemma_digits_bounds(cs@, i + 1);
        }
        match digits(cs, i + 1) {
            Some(j) => match exponent(cs, j) {
                Some(e) => Some(e),
                None => Some(j),
            },
            None => None,
        }
    } else {
        proof {
            lemma_digits_bounds(cs@, i as int);
        }
        match digits(cs, i) {
            Some(j) => {
                let point = j < cs.len() && cs[j] == '.';
                proof {
                    lemma_digits_bounds(cs@, j + 1);
                }
                let fraction = if point {
                    digits(cs, j + 1)
                } else {
                    None
                };
                let k = match fraction {
                    Some(m) => m,
                    None => j,
                };
                match exponent(cs, k) {
                    Some(e) => Some(e),
                    None => if point {
                        match fraction {
                            Some(m) => Some(m),
                            None => Some(j + 1),
                        }
                    } else {
                        None
                    },
                }
            },
            None => None,
        }
    }
}

/// A boolean token at `i`: its value and its end.
pub fn bool_token(cs: &Vec<char>, i: usize) -> (r: Option<(bool, usize)>)
    requires
        i <= cs.len(),
    ensures
        match r {
            Some((b, j)) => bool_at(cs@, i as int) == Some((b, j as int)),
            None => bool_at(cs@, i as int) is None,
        },
{
    let s = Ghost(cs@);
    let n = cs.len();
    if n - i >= 4 && ((cs[i] == 't' && cs[i + 1] == 'r' && cs[i + 2] == 'u' && cs[i + 3] == 'e')
        || (cs[i] == 'T' && cs[i + 1] == 'R' && cs[i + 2] == 'U' && cs[i + 3] == 'E')) {
        assert(cs@.subrange(i as int, i + 4) =~= seq!['t', 'r', 'u', 'e'] || cs@.subrange(
            i as int,
            i + 4,
        ) =~= seq!['T', 'R', 'U', 'E']);
        return Some((true, i + 4));
    }
    assert(!lit_at(s@, i as int, seq!['t', 'r', 'u', 'e']) && !lit_at(
        s@,
        i as int,
        seq!['T', 'R', 'U', 'E'],
    )) by {
        if i + 4 <= n {
            assert(cs@.subrange(i as int, i + 4)[0] == cs@[i as int]);
            assert(cs@.subrange(i as int, i + 4)[1] == cs@[i + 1]);
            assert(cs@.subrange(i as int, i + 4)[2] == cs@[i + 2]);
            assert(cs@.subrange(i as int, i + 4)[3] == cs@[i + 3]);
        }
    }
    if i < n && cs[i] == '1' {
        assert(cs@.subrange(i as int, i + 1) =~= seq!['1']);
        return Some((true, i + 1));
    }
    assert(!lit_at(s@, i as int, seq!['1'])) by {
        if i + 1 <= n {
            assert(cs@.subrange(i as int, i + 1)[0] == cs@[i as int]);
        }
    }
    if n - i >= 5 && ((cs[i] == 'f' && cs[i + 1] == 'a' && cs[i + 2] == 'l' && cs[i + 3] == 's'
        && cs[i + 4] == 'e') || (cs[i] == 'F' && cs[i + 1] == 'A' && cs[i + 2] == 'L' && cs[i + 3]
        == 'S' && cs[i + 4] == 'E')) {
        assert(cs@.subrange(i as int, i + 5) =~= seq!['f', 'a', 'l', 's', 'e'] || cs@.subrange(
            i as int,
            i + 5,
        ) =~= seq!['F', 'A', 'L', 'S', 'E']);
        return Some((false, i + 5));
    }
    assert(!lit_at(s@, i as int, seq!['f', 'a', 'l', 's', 'e']) && !lit_at(
        s@,
        i as int,
        seq!['F', 'A', 'L', 'S', 'E'],
    )) by {
        if i + 5 <= n {
            assert(cs@.subrange(i as int, i + 5)[0] == cs@[i as int]);
            assert(cs@.subrange(i as int, i + 5)[1] == cs@[i + 1]);
            assert(cs@.subrange(i as int, i + 5)[2] == cs@[i + 2]);
            assert(cs@.subrange(i as int, i + 5)[3] == cs@[i + 3]);
            assert(cs@.subrange(i as int, i + 5)[4] == cs@[i + 4]);
        }
    }
    if i < n && cs[i] == '0' {
        assert(cs@.subrange(i as int, i + 1) =~= seq!['0']);
        return Some((false, i + 1));
    }
    assert(!lit_at(s@, i as int, seq!['0'])) by {
        if i + 1 <= n {
            assert(cs@.subrange(i as int, i + 1)[0] == cs@[i as int]);
        }
    }
    None
}

/// A bare word at `i`: its end.
pub fn word_token(cs: &Vec<char>, i: usize) -> (r: Option<usize>)
    requires
        i <= cs.len(),
    ensures
        as_int(r) == word_at(cs@, i as int),
{
    if i < cs.len() && char_in_class(cs[i], CharClass::Word) {
        Some(span(cs, i + 1, CharClass::Word))
    } else {
        None
    }
}

/// A command name at `i`: its end.
pub fn name_token(cs: &Vec<char>, i: usize) -> (r: Option<usize>)
    requires
        i <= cs.len(),
    ensures
        as_int(r) == name_at(cs@, i as int),
{
    if i < cs.len() && (('a' <= cs[i] && cs[i] <= 'z') || ('A' <= cs[i] && cs[i] <= 'Z') || cs[i]
        == '_') {
        Some(span(cs, i + 1, CharClass::Ident))
    } else {
        None
    }
}

/// Relies on `char::from_u32`: the character whose code is `v`, where `v` is a
/// Unicode scalar value, and `None` for any other `v`.
#[verifier::external_body]
fn char_from_code(v: u32) -> (r: Option<char>)
    ensures
        r is Some <==> is_scalar(v as nat),
        r matches Some(c) ==> c == v as char,
{
    char::from_u32(v)
}

fn char_is_hex_digit(c: char) -> (r: bool)
    ensures
        r == is_hex_digit(c),
{
    ('0' <= c && c <= '9') || ('a' <= c && c <= 'f') || ('A' <= c && c <= 'F')
}

fn hex_digit_to_u32(c: char) -> (d: u32)
    requires
        is_hex_digit(c),
    ensures
        d == hex_digit_value(c),
        d < 16,
{
    if '0' <= c && c <= '9' {
        c as u32 - '0' as u32
    } else if 'a' <= c && c <= 'f' {
        c as u32 - 'a' as u32 + 10
    } else {
        c as u32 - 'A' as u32 + 10
    }
}

pub open spec fn pow16(n: nat) -> nat
    decreases n,
{
    if n == 0 {
        1
    } else {
        16 * pow16((n - 1) as nat)
    }
}

proof fn lemma_pow16_small(n: nat)
    requires
        n <= 6,
    ensures
        pow16(n) <= 0x1000000,
{
    reveal_with_fuel(pow16, 7);
}

fn hex_span(cs: &Vec<char>, i: usize) -> (j: usize)
    requires
        i <= cs.len(),
    ensures
        j == hex_end(cs@, i as int, 6),
        forall|k: int| i <= k < j ==> is_hex_digit(#[trigger] cs@[k]),
{
    let mut j = i;
    let mut n: usize = 6;
    while n > 0 && j < cs.len() && char_is_hex_digit(cs[j])
        invariant
            i <= j <= cs.len(),
            j - i + n == 6,
            hex_end(cs@, i as int, 6) == hex_end(cs@, j as int, n as nat),
            forall|k: int| i <= k < j ==> is_hex_digit(#[trigger] cs@[k]),
        decreases n,
    {
        j = j + 1;
        n = n - 1;
    }
    j
}

/// `u{H}` at `i`: the character that the hexadecimal digits `H` give, and the end.
pub fn unicode_token(cs: &Vec<char>, i: usize) -> (r: Option<(char, usize)>)
    requires
        i <= cs.len(),
    ensures
        match r {
            Some((c, j)) => unicode_at(cs@, i as int) == Some((c, j as int)),
            None => unicode_at(cs@, i as int) is None,
        },
{
    if !(cs.len() - i >= 2 && cs[i] == 'u' && cs[i + 1] == '{') {
        assert(!lit_at(cs@, i as int, seq!['u', '{'])) by {
            if cs.len() - i >= 2 {
                assert(cs@.subrange(i as int, i + 2)[0] == cs@[i as int]);
                assert(cs@.subrange(i as int, i + 2)[1] == cs@[i + 1]);
            }
        }
        return None;
    }
    assert(cs@.subrange(i as int, i + 2) =~= seq!['u', '{']);
    let j = hex_span(cs, i + 2);
    proof {
        lemma_hex_end_bounds(cs@, i + 2, 6);
    }
    if !(j > i + 2 && j < cs.len() && cs[j] == '}') {
        return None;
    }
    let mut v: u32 = 0;
    let mut k = i + 2;
    while k < j
        invariant
            i + 2 <= k <= j < cs.len(),
            j <= i + 8,
            forall|m: int| i + 2 <= m < j ==> is_hex_digit(#[trigger] cs@[m]),
            v as int == hex_value(cs@.subrange(i + 2, k as int)),
            v < pow16((k - i - 2) as nat),
        decreases j - k,
    {
        proof {
            lemma_pow16_small((k - i - 2) as nat);
        }
        let d = hex_digit_to_u32(cs[k]);
        assert(cs@.subrange(i + 2, k + 1).drop_last() =~= cs@.subrange(i + 2, k as int));
        v = v * 16 + d;
        k = k + 1;
    }
    match char_from_code(v) {
        Some(c) => Some((c, j + 1)),
        None => None,
    }
}

/// An escape at `i`, just after a backslash: the character it stands for, and the end.
pub fn escape_token(cs: &Vec<char>, i: usize) -> (r: Option<(char, usize)>)
    requires
        i <= cs.len(),
    ensures
        match r {
            Some((c, j)) => escape_at(cs@, i as int) == Some((c, j as int)),
            None => escape_at(cs@, i as int) is None,
        },
{
    if i >= cs.len() {
        return None;
    }
    let c = cs[i];
    if c == 'u' {
        unicode_token(cs, i)
    } else if c == 'n' {
        Some(('\n', i + 1))
    } else if c == 'r' {
        Some(('\r', i + 1))
    } else if c == 't' {
        Some(('\t', i + 1))
    } else if c == 'b' {
        Some(('\u{08}', i + 1))
    } else if c == 'f' {
        Some(('\u{0C}', i + 1))
    } else if c == '\\' || c == '/' || c == '"' || c == '\'' {
        Some((c, i + 1))
    } else {
        None
    }
}

/// Reads one fragment of the inside of a string quoted by `q` at `i`, appends its
/// text to `out`, and returns its end.
fn push_fragment(cs: &Vec<char>, i: usize, q: char, out: &mut String) -> (r: Option<usize>)
    requires
        i <= cs.len(),
    ensures
        match fragment_at(cs@, i as int, q) {
            Some((t, j)) => r == Some(j as usize) && final(out)@ == old(out)@ + t,
            None => r is None && final(out)@ == old(out)@,
        },
{
    proof {
        lemma_fragment_advances(cs@, i as int, q);
    }
    if i < cs.len() && char_in_class(cs[i], CharClass::StrBody(q)) {
        proof {
            lemma_span_end_bounds(cs@, i as int, CharClass::StrBody(q));
        }
        let e = span(cs, i, CharClass::StrBody(q));
        push_range(out, cs, i, e);
        Some(e)
    } else if i < cs.len() && cs[i] == '\\' {
        match escape_token(cs, i + 1) {
            Some((c, j)) => {
                push_char(out, c);
                assert(old(out)@.push(c) =~= old(out)@ + seq![c]);
                Some(j)
            },
            None => if i + 1 < cs.len() && char_in_class(cs[i + 1], CharClass::LineSpace) {
                assert(old(out)@ + Seq::<char>::empty() =~= old(out)@);
                Some(span(cs, i + 2, CharClass::LineSpace))
            } else {
                None
            },
        }
    } else {
        None
    }
}

/// A string in double or single quotes at `i`: its text and its end.
pub fn string_token(cs: &Vec<char>, i: usize) -> (r: Option<(String, usize)>)
    requires
        i <= cs.len(),
    ensures
        match r {
            Some((t, j)) => string_at(cs@, i as int) == Some((t@, j as int)),
            None => string_at(cs@, i as int) is None,
        },
{
    if !(i < cs.len() && (cs[i] == '"' || cs[i] == '\'')) {
        return None;
    }
    let q = cs[i];
    let mut out = String::new();
    let mut k = i + 1;
    proof {
        lemma_body_bounds(cs@, k as int, q);
    }
    loop
        invariant
            i < k <= cs.len(),
            q == cs@[i as int],
            body_at(cs@, i + 1, q) == (out@ + body_at(cs@, k as int, q).0, body_at(
                cs@,
                k as int,
                q,
            ).1),
        ensures
            i < k <= cs.len(),
            q == cs@[i as int],
            body_at(cs@, i + 1, q) == (out@, k as int),
        decreases cs.len() - k,
    {
        let ghost before = out@;
        proof {
            lemma_fragment_advances(cs@, k as int, q);
        }
        match push_fragment(cs, k, q, &mut out) {
            Some(j) => {
                let ghost t = fragment_at(cs@, k as int, q).unwrap().0;
                assert(body_at(cs@, k as int, q).0 == t + body_at(cs@, j as int, q).0);
                assert(before + (t + body_at(cs@, j as int, q).0) =~= out@ + body_at(
                    cs@,
                    j as int,
                    q,
                ).0);
                k = j;
            },
            None => {
                assert(body_at(cs@, k as int, q) == (Seq::<char>::empty(), k as int));
                assert(out@ + Seq::<char>::empty() =~= out@);
                break ;
            },
        }
    }
    if k < cs.len() && cs[k] == q {
        Some((out, k + 1))
    } else {
        None
    }
}

/// One literal at `i`: a string, else a float, else an integer, else a
/// boolean, else a bare word; and its end. Its text is borrowed from `s`.
pub fn value_token<'a>(s: &'a str, cs: &Vec<char>, i: usize) -> (r: Option<(ValueRaw<'a>, usize)>)
    requires
        cs@ == s@,
        i <= cs.len(),
    ensures
        match r {
            Some((v, j)) => value_at(cs@, i as int) == Some((v@, j as int)),
            None => value_at(cs@, i as int) is None,
        },
{
    proof {
        lemma_value_advances(cs@, i as int);
    }
    if let Some((t, j)) = string_token(cs, i) {
        return Some((ValueRaw::String(t), j));
    }
    if let Some(j) = float_token(cs, i) {
        return Some((ValueRaw::Float(s.substring_char(i, j)), j));
    }
    if let Some((n, j)) = int_token(cs, i) {
        return Some((ValueRaw::Int(n, s.substring_char(i, j)), j));
    }
    if let Some((b, j)) = bool_token(cs, i) {
        return Some((ValueRaw::Bool(b, s.substring_char(i, j)), j));
    }
    if let Some(j) = word_token(cs, i) {
        return Some((ValueRaw::String(string_of_range(cs, i, j)), j));
    }
    None
}

/// The literals of a list separated by spaces from `i`, after optional spaces,
/// and the position after the spaces that follow the last one.
fn value_list_from<'a>(s: &'a str, cs: &Vec<char>, i: usize) -> (r: (Vec<ValueRaw<'a>>, usize))
    requires
        cs@ == s@,
        i <= cs.len(),
    ensures
        value_list_at(cs@, i as int) == (literal_views(r.0@), r.1 as int),
{
    proof {
        lemma_span_end_bounds(cs@, i as int, CharClass::Space);
    }
    let m = span(cs, i, CharClass::Space);
    let mut vals: Vec<ValueRaw<'a>> = Vec::new();
    let (first, k0) = match value_token(s, cs, m) {
        Some(p) => p,
        None => {
            assert(literal_views(vals@) =~= Seq::<LiteralView>::empty());
            return (vals, m);
        },
    };
    proof {
        lemma_value_advances(cs@, m as int);
    }
    let ghost first_view = first@;
    vals.push(first);
    let ghost after = values_after(cs@, k0 as int);
    let mut j = k0;
    loop
        invariant
            j <= cs.len(),
            cs@ == s@,
            literal_views(vals@) + values_after(cs@, j as int).0 == seq![first_view] + after.0,
            values_after(cs@, j as int).1 == after.1,
        ensures
            j <= cs.len(),
            literal_views(vals@) == seq![first_view] + after.0,
            after.1 == j as int,
        decreases cs.len() - j,
    {
        proof {
            lemma_span_end_bounds(cs@, j as int, CharClass::Space);
        }
        let sp = span(cs, j, CharClass::Space);
        if j < sp {
            proof {
                lemma_value_advances(cs@, sp as int);
            }
            match value_token(s, cs, sp) {
                Some((v, k)) => {
                    let ghost vs = literal_views(vals@);
                    let ghost v_view = v@;
                    vals.push(v);
                    assert(literal_views(vals@) =~= vs.push(v_view));
                    assert(values_after(cs@, j as int).0 == seq![v_view] + values_after(
                        cs@,
                        k as int,
                    ).0);
                    assert(vs + (seq![v_view] + values_after(cs@, k as int).0) =~= vs.push(v_view)
                        + values_after(cs@, k as int).0);
                    j = k;
                },
                None => {
                    assert(literal_views(vals@) + Seq::empty() =~= literal_views(vals@));
                    break ;
                },
            }
        } else {
            assert(literal_views(vals@) + Seq::empty() =~= literal_views(vals@));
            break ;
        }
    }
    proof {
        lemma_span_end_bounds(cs@, j as int, CharClass::Space);
    }
    let e = span(cs, j, CharClass::Space);
    (vals, e)
}

/// Reads a whole argument text as a list of literals separated by spaces or
/// tabs, with spaces or tabs around it ignored.
pub fn parse_value_list<'a>(input: &'a str) -> (r: Result<Vec<ValueRaw<'a>>, ParseError>)
    ensures
        match r {
            Ok(v) => value_list_result(input@) == Ok::<_, ParseError>(literal_views(v@)),
            Err(e) => value_list_result(input@) == Err::<Seq<LiteralView>, _>(e),
        },
{
    let cs = chars_of(input);
    let (vals, e) = value_list_from(input, &cs, 0);
    if e == cs.len() {
        Ok(vals)
    } else {
        Err(ParseError { position: e, kind: ParseErrorKind::UnexpectedInput })
    }
}

/// Reads a whole command line as a command name and the list of literals
/// that follows it.
pub fn parse_full_command<'a>(input: &'a str) -> (r: Result<(&'a str, Vec<ValueRaw<'a>>), ParseError>)
    ensures
        match r {
            Ok((name, args)) => command_result(input@) == Ok::<_, ParseError>(
                (name@, literal_views(args@)),
            ),
            Err(e) => command_result(input@) == Err::<(Seq<char>, Seq<LiteralView>), _>(e),
        },
{
    let cs = chars_of(input);
    proof {
        lemma_span_end_bounds(cs@, 0, CharClass::Space);
    }
    let m = span(&cs, 0, CharClass::Space);
    let n = match name_token(&cs, m) {
        Some(n) => n,
        None => return Err(ParseError { position: m, kind: ParseErrorKind::NoCommandName }),
    };
    proof {
        lemma_span_end_bounds(cs@, m + 1, CharClass::Ident);
        lemma_span_end_bounds(cs@, n as int, CharClass::Space);
    }
    let name = input.substring_char(m, n);
    let (args, e) = if span(&cs, n, CharClass::Space) > n {
        value_list_from(input, &cs, n)
    } else {
        let empty: Vec<ValueRaw<'a>> = Vec::new();
        assert(literal_views(empty@) =~= Seq::<LiteralView>::empty());
        (empty, n)
    };
    if e == cs.len() {
        Ok((name, args))
    } else {
        Err(ParseError { position: e, kind: ParseErrorKind::UnexpectedInput })
    }
}

} // verus!
