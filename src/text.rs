//! Building text from characters and numbers.
use vstd::prelude::*;

use crate::grammar::is_digit;

verus! {

/// Relies on `String::push`: appends one character.
#[verifier::external_body]
pub(crate) fn push_char(s: &mut String, c: char)
    ensures
        final(s)@ == old(s)@.push(c),
{
    s.push(c)
}

/// The characters of `s`, one after another.
pub fn chars_of(s: &str) -> (r: Vec<char>)
    ensures
        r@ == s@,
{
    let mut v: Vec<char> = Vec::new();
    for c in it: s.chars()
        invariant
            it.seq() == s@,
            v@ == it.seq().take(it.index() as int),
    {
        v.push(c);
    }
    v
}

/// Appends the characters of `cs` from `from` up to `to`.
pub fn push_range(out: &mut String, cs: &Vec<char>, from: usize, to: usize)
    requires
        from <= to <= cs.len(),
    ensures
        final(out)@ == old(out)@ + cs@.subrange(from as int, to as int),
{
    let mut k = from;
    while k < to
        invariant
            from <= k <= to <= cs.len(),
            out@ == old(out)@ + cs@.subrange(from as int, k as int),
        decreases to - k,
    {
        push_char(out, cs[k]);
        k = k + 1;
        assert(cs@.subrange(from as int, k as int) =~= cs@.subrange(from as int, (k - 1) as int).push(
            cs@[k - 1],
        ));
    }
}

/// A new string of the characters of `cs` from `from` up to `to`.
pub fn string_of_range(cs: &Vec<char>, from: usize, to: usize) -> (r: String)
    requires
        from <= to <= cs.len(),
    ensures
        r@ == cs@.subrange(from as int, to as int),
{
    let mut out = String::new();
    push_range(&mut out, cs, from, to);
    assert(Seq::<char>::empty() + cs@.subrange(from as int, to as int) =~= cs@.subrange(
        from as int,
        to as int,
    ));
    out
}

/// `t` without its underscores.
pub open spec fn without_underscores(t: Seq<char>) -> Seq<char> {
    t.filter(|c: char| c != '_')
}

/// A copy of `s` without its underscores.
pub fn strip_underscores(s: &str) -> (r: String)
    ensures
        r@ == without_underscores(s@),
{
    let cs = chars_of(s);
    let mut out = String::new();
    let mut k: usize = 0;
    while k < cs.len()
        invariant
            k <= cs.len(),
            cs@ == s@,
            out@ == without_underscores(cs@.take(k as int)),
        decreases cs.len() - k,
    {
        let c = cs[k];
        assert(cs@.take(k as int + 1).drop_last() =~= cs@.take(k as int));
        reveal(Seq::filter);
        if c != '_' {
            push_char(&mut out, c);
        }
        k = k + 1;
    }
    assert(cs@.take(cs.len() as int) =~= cs@);
    out
}

pub open spec fn digit_char(d: nat) -> char {
    (d + '0' as nat) as char
}

/// The decimal digits of `n`, without leading zeros.
pub open spec fn decimal(n: nat) -> Seq<char>
    decreases n,
{
    if n < 10 {
        seq![digit_char(n)]
    } else {
        decimal(n / 10).push(digit_char(n % 10))
    }
}

/// The decimal text of `n`, with a minus sign when it is negative.
pub open spec fn signed_decimal(n: int) -> Seq<char> {
    if n < 0 {
        seq!['-'] + decimal((-n) as nat)
    } else {
        decimal(n as nat)
    }
}

fn digit_to_char(d: u64) -> (c: char)
    requires
        d < 10,
    ensures
        c == digit_char(d as nat),
        is_digit(c),
{
    let b: u8 = 48 + d as u8;
    b as char
}

/// The decimal text of `n`.
pub fn unsigned_text(n: u128) -> (r: String)
    ensures
        r@ == decimal(n as nat),
{
    let mut out = String::new();
    push_decimal(&mut out, n);
    assert(Seq::<char>::empty() + decimal(n as nat) =~= decimal(n as nat));
    out
}

/// The decimal text of `n`, as `signed_decimal` gives it.
pub fn decimal_text(n: i64) -> (r: String)
    ensures
        r@ == signed_decimal(n as int),
{
    let mut out = String::new();
    let q: u128 = if n < 0 {
        push_char(&mut out, '-');
        (0 - (n as i128)) as u128
    } else {
        n as u128
    };
    push_decimal(&mut out, q);
    assert(out@ =~= signed_decimal(n as int));
    out
}

/// Appends the decimal digits of `n`.
fn push_decimal(out: &mut String, n: u128)
    ensures
        final(out)@ == old(out)@ + decimal(n as nat),
{
    let mut q: u128 = n;
    let mut tail: Vec<char> = Vec::new();
    while q >= 10
        invariant
            decimal(n as nat) == decimal(q as nat) + tail@,
        decreases q,
    {
        let d = digit_to_char((q % 10) as u64);
        assert(decimal(q as nat) == decimal((q / 10) as nat).push(d));
        tail.insert(0, d);
        assert(decimal(n as nat) =~= decimal((q / 10) as nat) + tail@);
        q = q / 10;
    }
    push_char(out, digit_to_char(q as u64));
    let ghost head = out@;
    let mut k: usize = 0;
    while k < tail.len()
        invariant
            k <= tail.len(),
            out@ == head + tail@.take(k as int),
        decreases tail.len() - k,
    {
        push_char(out, tail[k]);
        k = k + 1;
        assert(tail@.take(k as int) =~= tail@.take(k - 1).push(tail@[k - 1]));
    }
    assert(tail@.take(tail.len() as int) =~= tail@);
    assert(out@ =~= old(out)@ + decimal(n as nat));
}

} // verus!
