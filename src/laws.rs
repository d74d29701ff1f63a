//! Properties of the grammar and of decoding that hold for all inputs.
use vstd::prelude::*;

use crate::grammar::{
    body_at, bool_at, digits_at, digits_value, float_at, fragment_at, hex_end, hex_value, in_class,
    int_at, is_digit, is_hex_digit, is_scalar, lemma_body_bounds, lemma_span_end_bounds, lit_at,
    span_end, string_at, unicode_at, value_at, value_list_at, value_list_result, values_after,
    word_at, CharClass,
};
use crate::decode::kind_of;
use crate::error::FromValueError;
use crate::schema::{
    decode_from, decode_spec, lemma_schema_check, schema_check, FieldView, MAX_FIELDS,
};
use crate::value::LiteralView;

verus! {

/// A run of digits and underscores that starts with a digit and writes a
/// number that fits in an `i64` reads as one integer literal of that value,
/// whose text is the whole input.
pub proof fn lemma_integer_literal(s: Seq<char>)
    requires
        s.len() > 0,
        is_digit(s[0]),
        forall|k: int| 0 <= k < s.len() ==> in_class(#[trigger] s[k], CharClass::DigitOrUnderscore),
        digits_value(s) <= i64::MAX,
    ensures
        value_list_result(s) == Ok::<_, crate::error::ParseError>(
            seq![LiteralView::Int(digits_value(s) as i64, s)],
        ),
{
    let n = s.len() as int;
    lemma_span_end_bounds(s, 1, CharClass::DigitOrUnderscore);
    assert(span_end(s, 1, CharClass::DigitOrUnderscore) == n);
    assert(digits_at(s, 0) == Some(n));
    assert(s.subrange(0, n) =~= s);
    assert(float_at(s, 0) is None);
    assert(int_at(s, 0) == Some((digits_value(s) as i64, n)));
    assert(value_at(s, 0) == Some((LiteralView::Int(digits_value(s) as i64, s), n)));
    assert(span_end(s, 0, CharClass::Space) == 0);
    assert(span_end(s, n, CharClass::Space) == n);
    assert(values_after(s, n) == (Seq::<LiteralView>::empty(), n));
    assert(seq![LiteralView::Int(digits_value(s) as i64, s)] + Seq::<LiteralView>::empty() =~= seq![
        LiteralView::Int(digits_value(s) as i64, s),
    ]);
}

/// A string in double quotes whose inside holds no quote and no backslash
/// reads as one string literal whose text is that inside.
pub proof fn lemma_plain_string(s: Seq<char>)
    requires
        forall|k: int| 0 <= k < s.len() ==> #[trigger] s[k] != '"' && s[k] != '\'' && s[k] != '\\',
    ensures
        value_list_result(seq!['"'] + s + seq!['"']) == Ok::<_, crate::error::ParseError>(
            seq![LiteralView::Str(s)],
        ),
{
    let t = seq!['"'] + s + seq!['"'];
    let n = t.len() as int;
    let q = '"';
    assert(t[0] == q);
    assert(t[n - 1] == q);
    assert forall|k: int| 1 <= k < n - 1 implies #[trigger] t[k] == s[k - 1] by {}
    let e = s.len() as int + 1;
    if s.len() > 0 {
        lemma_span_end_bounds(t, 1, CharClass::StrBody(q));
        assert(t[1] == s[0]);
        assert forall|k: int| 1 <= k < e implies in_class(#[trigger] t[k], CharClass::StrBody(q)) by {
            assert(t[k] == s[k - 1]);
        }
        assert(span_end(t, 1, CharClass::StrBody(q)) == e);
        assert(t.subrange(1, e) =~= s);
    }
    assert(body_at(t, e, q) == (Seq::<char>::empty(), e));
    assert(body_at(t, 1, q).0 =~= s);
    assert(body_at(t, 1, q).1 == e);
    assert(string_at(t, 0) == Some((s, n)));
    assert(span_end(t, 0, CharClass::Space) == 0);
    assert(span_end(t, n, CharClass::Space) == n);
    assert(values_after(t, n) == (Seq::<LiteralView>::empty(), n));
    assert(seq![LiteralView::Str(s)] + Seq::<LiteralView>::empty() =~= seq![LiteralView::Str(s)]);
}

/// Only a string can start with a quote.
proof fn lemma_quote_is_no_other_token(t: Seq<char>)
    requires
        t.len() > 0,
        t[0] == '"' || t[0] == '\'',
    ensures
        float_at(t, 0) is None,
        int_at(t, 0) is None,
        bool_at(t, 0) is None,
        word_at(t, 0) is None,
        span_end(t, 0, CharClass::Space) == 0,
{
    assert(!lit_at(t, 0, seq!['t', 'r', 'u', 'e'])) by {
        if lit_at(t, 0, seq!['t', 'r', 'u', 'e']) {
            assert(t.subrange(0, 4)[0] == t[0]);
        }
    }
    assert(!lit_at(t, 0, seq!['T', 'R', 'U', 'E'])) by {
        if lit_at(t, 0, seq!['T', 'R', 'U', 'E']) {
            assert(t.subrange(0, 4)[0] == t[0]);
        }
    }
    assert(!lit_at(t, 0, seq!['f', 'a', 'l', 's', 'e'])) by {
        if lit_at(t, 0, seq!['f', 'a', 'l', 's', 'e']) {
            assert(t.subrange(0, 5)[0] == t[0]);
        }
    }
    assert(!lit_at(t, 0, seq!['F', 'A', 'L', 'S', 'E'])) by {
        if lit_at(t, 0, seq!['F', 'A', 'L', 'S', 'E']) {
            assert(t.subrange(0, 5)[0] == t[0]);
        }
    }
    assert(!lit_at(t, 0, seq!['1'])) by {
        if lit_at(t, 0, seq!['1']) {
            assert(t.subrange(0, 1)[0] == t[0]);
        }
    }
    assert(!lit_at(t, 0, seq!['0'])) by {
        if lit_at(t, 0, seq!['0']) {
            assert(t.subrange(0, 1)[0] == t[0]);
        }
    }
}

/// A line that starts with a quote that is not closed is an error, whatever
/// follows the quote.
pub proof fn lemma_unterminated_quote(q: char, s: Seq<char>)
    requires
        q == '"' || q == '\'',
        string_at(seq![q] + s, 0) is None,
    ensures
        value_list_result(seq![q] + s) is Err,
{
    let t = seq![q] + s;
    assert(t[0] == q);
    lemma_quote_is_no_other_token(t);
    assert(value_at(t, 0) is None);
    assert(value_list_at(t, 0).1 == 0);
}

/// A quote with no quote of the same kind after it is not closed.
pub proof fn lemma_no_closing_quote(q: char, s: Seq<char>)
    requires
        q == '"' || q == '\'',
        forall|k: int| 0 <= k < s.len() ==> #[trigger] s[k] != q,
    ensures
        string_at(seq![q] + s, 0) is None,
{
    let t = seq![q] + s;
    assert(t[0] == q);
    assert forall|k: int| 1 <= k < t.len() implies #[trigger] t[k] != q by {
        assert(t[k] == s[k - 1]);
    }
    lemma_body_bounds(t, 1, q);
}

proof fn lemma_hex_run(s: Seq<char>, i: int, n: nat, k: nat)
    requires
        0 <= i,
        i + k <= s.len(),
        k <= n,
        forall|m: int| i <= m < i + k ==> is_hex_digit(#[trigger] s[m]),
        k < n && i + k < s.len() ==> !is_hex_digit(s[i + k]),
    ensures
        hex_end(s, i, n) == i + k,
    decreases k,
{
    if k > 0 {
        lemma_hex_run(s, i + 1, (n - 1) as nat, (k - 1) as nat);
    }
}

/// The escape `\u{H}` in a string, with one to six hexadecimal digits `H`,
/// stands for the character of code `H` where that is a Unicode scalar value;
/// where it is not (a surrogate, or above `0x10FFFF`) the line is an error.
pub proof fn lemma_unicode_escape(h: Seq<char>)
    requires
        1 <= h.len() <= 6,
        forall|k: int| 0 <= k < h.len() ==> is_hex_digit(#[trigger] h[k]),
    ensures
        is_scalar(hex_value(h)) ==> value_list_result(
            seq!['"', '\\', 'u', '{'] + h + seq!['}', '"'],
        ) == Ok::<_, crate::error::ParseError>(
            seq![LiteralView::Str(seq![hex_value(h) as char])],
        ),
        !is_scalar(hex_value(h)) ==> value_list_result(
            seq!['"', '\\', 'u', '{'] + h + seq!['}', '"'],
        ) is Err,
{
    let t = seq!['"', '\\', 'u', '{'] + h + seq!['}', '"'];
    let n = t.len() as int;
    let j = 4 + h.len() as int;
    let q = '"';
    assert(t[0] == q && t[1] == '\\' && t[2] == 'u' && t[3] == '{');
    assert(t[j] == '}' && t[j + 1] == q);
    assert forall|m: int| 4 <= m < j implies #[trigger] t[m] == h[m - 4] by {}
    lemma_hex_run(t, 4, 6, h.len());
    assert(t.subrange(4, j) =~= h);
    assert(t.subrange(2, 4) =~= seq!['u', '{']);
    lemma_quote_is_no_other_token(t);
    if is_scalar(hex_value(h)) {
        let c = hex_value(h) as char;
        assert(unicode_at(t, 2) == Some((c, j + 1)));
        assert(fragment_at(t, 1, q) == Some((seq![c], j + 1)));
        assert(body_at(t, j + 1, q) == (Seq::<char>::empty(), j + 1));
        assert(body_at(t, 1, q).0 =~= seq![c]);
        assert(string_at(t, 0) == Some((seq![c], n)));
        assert(span_end(t, n, CharClass::Space) == n);
        assert(values_after(t, n) == (Seq::<LiteralView>::empty(), n));
        assert(seq![LiteralView::Str(seq![c])] + Seq::<LiteralView>::empty() =~= seq![
            LiteralView::Str(seq![c]),
        ]);
    } else {
        assert(unicode_at(t, 2) is None);
        assert(fragment_at(t, 1, q) is None);
        assert(string_at(t, 0) is None);
        assert(value_at(t, 0) is None);
    }
}

proof fn lemma_decode_error_from(fs: Seq<FieldView>, vs: Seq<LiteralView>, k: int)
    requires
        0 <= k,
        fs.len() <= MAX_FIELDS,
    ensures
        decode_from(fs, vs, k) matches Err(
            FromValueError::UnexpectedArgType { arg_num, expected, received },
        ) ==> k <= arg_num < fs.len() && arg_num < vs.len() && expected == fs[arg_num as int].value_type
            && received == kind_of(vs[arg_num as int]),
        decode_from(fs, vs, k) matches Err(FromValueError::ValueTooLarge { arg_num, max }) ==> k
            <= arg_num < fs.len() && arg_num < vs.len() && vs[arg_num as int] is Int,
    decreases fs.len() - k,
{
    if k < fs.len() {
        lemma_decode_error_from(fs, vs, k + 1);
        assert((k as u8) as int == k);
    }
}

/// A decoding that fails on a literal of the wrong type names the position
/// of that literal, from 0, the type its field expects and the type it has;
/// one that fails on a number too large names the position of an integer
/// literal.
pub proof fn lemma_decode_error_position(fs: Seq<FieldView>, vs: Seq<LiteralView>)
    requires
        fs.len() <= MAX_FIELDS,
    ensures
        decode_spec(fs, vs) matches Err(
            FromValueError::UnexpectedArgType { arg_num, expected, received },
        ) ==> arg_num < fs.len() && arg_num < vs.len() && expected == fs[arg_num as int].value_type
            && received == kind_of(vs[arg_num as int]),
        decode_spec(fs, vs) matches Err(FromValueError::ValueTooLarge { arg_num, max }) ==> arg_num
            < vs.len() && vs[arg_num as int] is Int,
{
    lemma_decode_error_from(fs, vs, 0);
}

/// A definition with a required field after an optional one is refused,
/// whatever its name and its other fields.
pub proof fn lemma_required_after_optional_refused(name: Seq<char>, fs: Seq<FieldView>, i: int, j: int)
    requires
        0 <= i < j < fs.len(),
        fs[i].optional,
        !fs[j].optional,
    ensures
        schema_check(name, fs) is Err,
{
    lemma_schema_check(name, fs);
}

} // verus!
