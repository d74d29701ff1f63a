//! Literal values read from a command line, in a borrowing, an owned and an erased form.
use vstd::prelude::*;

use crate::text::{strip_underscores, without_underscores};

verus! {

/// The value types available for arguments.
#[derive(Clone, Copy, Debug, PartialEq, Eq)]
pub enum ValueType {
    /// String arg type
    String,
    /// Int arg type
    Int,
    /// Float arg type
    Float,
    /// Bool arg type
    Bool,
}

/// What a literal token of a command line is, as mathematical values.
///
/// `Str` holds the decoded text of a quoted string or a bare word; the other
/// variants hold the text the token was read from, and `Int` and `Bool` also
/// hold the value read.
pub enum LiteralView {
    Str(Seq<char>),
    Int(i64, Seq<char>),
    Float(Seq<char>),
    Bool(bool, Seq<char>),
}

/// What a literal is once the text it was read from is set aside. A float is
/// kept as its decimal text without underscores.
pub enum ValueView {
    Str(Seq<char>),
    Int(i64),
    Float(Seq<char>),
    Bool(bool),
}

pub open spec fn erase(l: LiteralView) -> ValueView {
    match l {
        LiteralView::Str(s) => ValueView::Str(s),
        LiteralView::Int(n, _) => ValueView::Int(n),
        LiteralView::Float(raw) => ValueView::Float(without_underscores(raw)),
        LiteralView::Bool(b, _) => ValueView::Bool(b),
    }
}

/// A literal that borrows the text it was read from from the input.
///
/// A float is held as that text alone: its value is the decimal number the
/// text writes, underscores ignored.
#[derive(Clone, Debug, PartialEq)]
pub enum ValueRaw<'a> {
    String(String),
    Int(i64, &'a str),
    Float(&'a str),
    Bool(bool, &'a str),
}

/// A literal that owns a copy of the text it was read from.
#[derive(Clone, Debug, PartialEq)]
pub enum ValueRawOwned {
    String(String),
    Int(i64, String),
    Float(String),
    Bool(bool, String),
}

/// A literal without the text it was read from. A float is held as its
/// decimal text without underscores.
#[derive(Clone, Debug, PartialEq)]
pub enum Value {
    String(String),
    Int(i64),
    Float(String),
    Bool(bool),
}

impl<'a> View for ValueRaw<'a> {
    type V = LiteralView;

    open spec fn view(&self) -> LiteralView {
        match self {
            ValueRaw::String(s) => LiteralView::Str(s@),
            ValueRaw::Int(n, raw) => LiteralView::Int(*n, raw@),
            ValueRaw::Float(raw) => LiteralView::Float(raw@),
            ValueRaw::Bool(b, raw) => LiteralView::Bool(*b, raw@),
        }
    }
}

impl View for ValueRawOwned {
    type V = LiteralView;

    open spec fn view(&self) -> LiteralView {
        match self {
            ValueRawOwned::String(s) => LiteralView::Str(s@),
            ValueRawOwned::Int(n, raw) => LiteralView::Int(*n, raw@),
            ValueRawOwned::Float(raw) => LiteralView::Float(raw@),
            ValueRawOwned::Bool(b, raw) => LiteralView::Bool(*b, raw@),
        }
    }
}

impl View for Value {
    type V = ValueView;

    open spec fn view(&self) -> ValueView {
        match self {
            Value::String(s) => ValueView::Str(s@),
            Value::Int(n) => ValueView::Int(*n),
            Value::Float(t) => ValueView::Float(t@),
            Value::Bool(b) => ValueView::Bool(*b),
        }
    }
}

pub open spec fn literal_views(v: Seq<ValueRaw<'_>>) -> Seq<LiteralView> {
    v.map_values(|x: ValueRaw<'_>| x@)
}

pub open spec fn owned_views(v: Seq<ValueRawOwned>) -> Seq<LiteralView> {
    v.map_values(|x: ValueRawOwned| x@)
}

impl ValueRawOwned {
    /// The owned form of a borrowed literal: the same variant, its text copied.
    pub fn from_ref(value: &ValueRaw<'_>) -> (r: ValueRawOwned)
        ensures
            r@ == value@,
    {
        match value {
            ValueRaw::String(s) => ValueRawOwned::String(s.clone()),
            ValueRaw::Int(n, raw) => ValueRawOwned::Int(*n, (*raw).to_owned()),
            ValueRaw::Float(raw) => ValueRawOwned::Float((*raw).to_owned()),
            ValueRaw::Bool(b, raw) => ValueRawOwned::Bool(*b, (*raw).to_owned()),
        }
    }

    /// The owned form of a borrowing literal: the same variant, its text copied.
    pub fn from_raw(value: ValueRaw<'_>) -> (r: ValueRawOwned)
        ensures
            r@ == value@,
    {
        match value {
            ValueRaw::String(s) => ValueRawOwned::String(s),
            ValueRaw::Int(n, raw) => ValueRawOwned::Int(n, raw.to_owned()),
            ValueRaw::Float(raw) => ValueRawOwned::Float(raw.to_owned()),
            ValueRaw::Bool(b, raw) => ValueRawOwned::Bool(b, raw.to_owned()),
        }
    }
}

impl Value {
    /// The erased form of a borrowing literal.
    pub fn from_raw(value: ValueRaw<'_>) -> (r: Value)
        ensures
            r@ == erase(value@),
    {
        match value {
            ValueRaw::String(s) => Value::String(s),
            ValueRaw::Int(n, _) => Value::Int(n),
            ValueRaw::Float(raw) => Value::Float(strip_underscores(raw)),
            ValueRaw::Bool(b, _) => Value::Bool(b),
        }
    }

    /// The erased form of an owned literal.
    pub fn from_owned(value: ValueRawOwned) -> (r: Value)
        ensures
            r@ == erase(value@),
    {
        match value {
            ValueRawOwned::String(s) => Value::String(s),
            ValueRawOwned::Int(n, _) => Value::Int(n),
            ValueRawOwned::Float(raw) => Value::Float(strip_underscores(raw.as_str())),
            ValueRawOwned::Bool(b, _) => Value::Bool(b),
        }
    }
}

// The contents of a `String` cannot be built in spec code, so these
// conversions state what they return in their own `ensures` rather than
// through `from_spec`.
impl<'a> From<ValueRaw<'a>> for ValueRawOwned {
    fn from(value: ValueRaw<'a>) -> (r: ValueRawOwned)
        ensures
            r@ == value@,
    {
        ValueRawOwned::from_raw(value)
    }
}

impl<'a> vstd::std_specs::convert::FromSpecImpl<ValueRaw<'a>> for ValueRawOwned {
    open spec fn obeys_from_spec() -> bool {
        false
    }

    open spec fn from_spec(v: ValueRaw<'a>) -> ValueRawOwned {
        arbitrary()
    }
}

impl<'a> From<ValueRaw<'a>> for Value {
    fn from(value: ValueRaw<'a>) -> (r: Value)
        ensures
            r@ == erase(value@),
    {
        Value::from_raw(value)
    }
}

impl<'a> vstd::std_specs::convert::FromSpecImpl<ValueRaw<'a>> for Value {
    open spec fn obeys_from_spec() -> bool {
        false
    }

    open spec fn from_spec(v: ValueRaw<'a>) -> Value {
        arbitrary()
    }
}

impl From<ValueRawOwned> for Value {
    fn from(value: ValueRawOwned) -> (r: Value)
        ensures
            r@ == erase(value@),
    {
        Value::from_owned(value)
    }
}

impl vstd::std_specs::convert::FromSpecImpl<ValueRawOwned> for Value {
    open spec fn obeys_from_spec() -> bool {
        false
    }

    open spec fn from_spec(v: ValueRawOwned) -> Value {
        arbitrary()
    }
}

} // verus!
