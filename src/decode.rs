//! Decoding literals into typed argument values.
use vstd::prelude::*;

use crate::error::FromValueError;
use crate::text::{decimal_text, signed_decimal, strip_underscores, without_underscores};
use crate::value::{erase, LiteralView, Value, ValueRawOwned, ValueType, ValueView};

verus! {

/// The value type of a literal.
pub open spec fn kind_of(v: LiteralView) -> ValueType {
    match v {
        LiteralView::Str(_) => ValueType::String,
        LiteralView::Int(..) => ValueType::Int,
        LiteralView::Float(_) => ValueType::Float,
        LiteralView::Bool(..) => ValueType::Bool,
    }
}

pub open spec fn unexpected(arg_num: u8, expected: ValueType, v: LiteralView) -> FromValueError {
    FromValueError::UnexpectedArgType { arg_num, expected, received: kind_of(v) }
}

pub open spec fn view_result<T: DeepView>(r: Result<T, FromValueError>) -> Result<
    T::V,
    FromValueError,
> {
    match r {
        Ok(x) => Ok(x.deep_view()),
        Err(e) => Err(e),
    }
}

/// An integer literal checked against the range `min..=max`.
pub open spec fn int_in_range(v: LiteralView, arg_num: u8, min: i64, max: i64) -> Result<
    i64,
    FromValueError,
> {
    match v {
        LiteralView::Int(n, _) => if n > max {
            Err(FromValueError::ValueTooLarge { arg_num, max })
        } else if n < min {
            Err(FromValueError::ValueTooSmall { arg_num, min })
        } else {
            Ok(n)
        },
        _ => Err(unexpected(arg_num, ValueType::Int, v)),
    }
}

impl ValueRawOwned {
    /// The value type of this literal.
    pub fn value_type(&self) -> (r: ValueType)
        ensures
            r == kind_of(self@),
    {
        match self {
            ValueRawOwned::String(_) => ValueType::String,
            ValueRawOwned::Int(..) => ValueType::Int,
            ValueRawOwned::Float(_) => ValueType::Float,
            ValueRawOwned::Bool(..) => ValueType::Bool,
        }
    }

    /// A copy of this literal.
    pub fn copied(&self) -> (r: ValueRawOwned)
        ensures
            r@ == self@,
    {
        match self {
            ValueRawOwned::String(s) => ValueRawOwned::String(s.clone()),
            ValueRawOwned::Int(n, raw) => ValueRawOwned::Int(*n, raw.clone()),
            ValueRawOwned::Float(raw) => ValueRawOwned::Float(raw.clone()),
            ValueRawOwned::Bool(b, raw) => ValueRawOwned::Bool(*b, raw.clone()),
        }
    }
}

fn check_int(value: &ValueRawOwned, arg_num: u8, min: i64, max: i64) -> (r: Result<
    i64,
    FromValueError,
>)
    ensures
        r == int_in_range(value@, arg_num, min, max),
{
    match value {
        ValueRawOwned::Int(n, _) => if *n > max {
            Err(FromValueError::ValueTooLarge { arg_num, max })
        } else if *n < min {
            Err(FromValueError::ValueTooSmall { arg_num, min })
        } else {
            Ok(*n)
        },
        _ => Err(FromValueError::UnexpectedArgType {
            arg_num,
            expected: ValueType::Int,
            received: value.value_type(),
        }),
    }
}

/// The next literal under the cursor, which moves past it.
pub fn next_value<'a>(values: &'a [ValueRawOwned], cursor: &mut usize) -> (r: Option<
    &'a ValueRawOwned,
>)
    requires
        *old(cursor) <= values@.len(),
    ensures
        *old(cursor) < values@.len() ==> *final(cursor) == *old(cursor) + 1 && r == Some(
            &values@[*old(cursor) as int],
        ),
        *old(cursor) == values@.len() ==> *final(cursor) == *old(cursor) && r is None,
{
    if *cursor < values.len() {
        let v = &values[*cursor];
        *cursor = *cursor + 1;
        Some(v)
    } else {
        None
    }
}

/// Decoding of an argument value from a literal.
pub trait FromValue: Sized + DeepView {
    /// What decoding `value` as argument number `arg_num` gives.
    spec fn spec_from_value(value: LiteralView, arg_num: u8) -> Result<Self::V, FromValueError>;

    /// What decoding gives where no literal is left.
    spec fn spec_missing() -> Result<Self::V, FromValueError>;

    /// Decodes `value` as argument number `arg_num`.
    fn from_value(value: &ValueRawOwned, arg_num: u8) -> (r: Result<Self, FromValueError>)
        ensures
            view_result(r) == Self::spec_from_value(value@, arg_num),
    ;

    /// Decodes the literal under the cursor, which moves past it.
    fn from_value_iter(values: &[ValueRawOwned], cursor: &mut usize, arg_num: u8) -> (r: Result<
        Self,
        FromValueError,
    >)
        requires
            *old(cursor) <= values@.len(),
        ensures
            *old(cursor) < values@.len() ==> *final(cursor) == *old(cursor) + 1 && view_result(r)
                == Self::spec_from_value(values@[*old(cursor) as int]@, arg_num),
            *old(cursor) == values@.len() ==> *final(cursor) == *old(cursor) && view_result(r)
                == Self::spec_missing(),
    ;
}

/// A floating-point argument, held as the decimal text of its value without
/// underscores, which a float parser reads.
#[derive(Clone, Debug, PartialEq)]
pub struct FloatArg(pub String);

impl DeepView for FloatArg {
    type V = Seq<char>;

    open spec fn deep_view(&self) -> Seq<char> {
        self.0@
    }
}

impl DeepView for Value {
    type V = ValueView;

    open spec fn deep_view(&self) -> ValueView {
        self@
    }
}

impl DeepView for ValueRawOwned {
    type V = LiteralView;

    open spec fn deep_view(&self) -> LiteralView {
        self@
    }
}

impl FromValue for Value {
    open spec fn spec_from_value(value: LiteralView, arg_num: u8) -> Result<ValueView, FromValueError> {
        Ok(erase(value))
    }

    open spec fn spec_missing() -> Result<ValueView, FromValueError> {
        Err(FromValueError::NotEnoughArgs)
    }

    fn from_value(value: &ValueRawOwned, _arg_num: u8) -> (r: Result<Self, FromValueError>) {
        Ok(Value::from_owned(value.copied()))
    }

    fn from_value_iter(values: &[ValueRawOwned], cursor: &mut usize, arg_num: u8) -> (r: Result<
        Self,
        FromValueError,
    >) {
        match next_value(values, cursor) {
            Some(v) => Self::from_value(v, arg_num),
            None => Err(FromValueError::NotEnoughArgs),
        }
    }
}

impl FromValue for ValueRawOwned {
    open spec fn spec_from_value(value: LiteralView, arg_num: u8) -> Result<LiteralView, FromValueError> {
        Ok(value)
    }

    open spec fn spec_missing() -> Result<LiteralView, FromValueError> {
        Err(FromValueError::NotEnoughArgs)
    }

    fn from_value(value: &ValueRawOwned, _arg_num: u8) -> (r: Result<Self, FromValueError>) {
        Ok(value.copied())
    }

    fn from_value_iter(values: &[ValueRawOwned], cursor: &mut usize, arg_num: u8) -> (r: Result<
        Self,
        FromValueError,
    >) {
        match next_value(values, cursor) {
            Some(v) => Self::from_value(v, arg_num),
            None => Err(FromValueError::NotEnoughArgs),
        }
    }
}

/// A string argument takes a string literal's text, and the text that any
/// other literal was read from.
impl FromValue for String {
    open spec fn spec_from_value(value: LiteralView, arg_num: u8) -> Result<Seq<char>, FromValueError> {
        match value {
            LiteralView::Str(s) => Ok(s),
            LiteralView::Int(_, raw) => Ok(raw),
            LiteralView::Float(raw) => Ok(raw),
            LiteralView::Bool(_, raw) => Ok(raw),
        }
    }

    open spec fn spec_missing() -> Result<Seq<char>, FromValueError> {
        Err(FromValueError::NotEnoughArgs)
    }

    fn from_value(value: &ValueRawOwned, _arg_num: u8) -> (r: Result<Self, FromValueError>) {
        match value {
            ValueRawOwned::String(s) => Ok(s.clone()),
            ValueRawOwned::Int(_, raw) | ValueRawOwned::Float(raw) | ValueRawOwned::Bool(_, raw) => Ok(
                raw.clone(),
            ),
        }
    }

    fn from_value_iter(values: &[ValueRawOwned], cursor: &mut usize, arg_num: u8) -> (r: Result<
        Self,
        FromValueError,
    >) {
        match next_value(values, cursor) {
            Some(v) => Self::from_value(v, arg_num),
            None => Err(FromValueError::NotEnoughArgs),
        }
    }
}

/// A float argument takes an integer or a float literal.
impl FromValue for FloatArg {
    open spec fn spec_from_value(value: LiteralView, arg_num: u8) -> Result<Seq<char>, FromValueError> {
        match value {
            LiteralView::Int(n, _) => Ok(signed_decimal(n as int)),
            LiteralView::Float(raw) => Ok(without_underscores(raw)),
            _ => Err(unexpected(arg_num, ValueType::Float, value)),
        }
    }

    open spec fn spec_missing() -> Result<Seq<char>, FromValueError> {
        Err(FromValueError::NotEnoughArgs)
    }

    fn from_value(value: &ValueRawOwned, arg_num: u8) -> (r: Result<Self, FromValueError>) {
        match value {
            ValueRawOwned::Int(n, _) => Ok(FloatArg(decimal_text(*n))),
            ValueRawOwned::Float(raw) => Ok(FloatArg(strip_underscores(raw.as_str()))),
            _ => Err(FromValueError::UnexpectedArgType {
                arg_num,
                expected: ValueType::Float,
                received: value.value_type(),
            }),
        }
    }

    fn from_value_iter(values: &[ValueRawOwned], cursor: &mut usize, arg_num: u8) -> (r: Result<
        Self,
        FromValueError,
    >) {
        match next_value(values, cursor) {
            Some(v) => Self::from_value(v, arg_num),
            None => Err(FromValueError::NotEnoughArgs),
        }
    }
}

/// A boolean argument takes a boolean literal only.
impl FromValue for bool {
    open spec fn spec_from_value(value: LiteralView, arg_num: u8) -> Result<bool, FromValueError> {
        match value {
            LiteralView::Bool(b, _) => Ok(b),
            _ => Err(unexpected(arg_num, ValueType::Bool, value)),
        }
    }

    open spec fn spec_missing() -> Result<bool, FromValueError> {
        Err(FromValueError::NotEnoughArgs)
    }

    fn from_value(value: &ValueRawOwned, arg_num: u8) -> (r: Result<Self, FromValueError>) {
        match value {
            ValueRawOwned::Bool(b, _) => Ok(*b),
            _ => Err(FromValueError::UnexpectedArgType {
                arg_num,
                expected: ValueType::Bool,
                received: value.value_type(),
            }),
        }
    }

    fn from_value_iter(values: &[ValueRawOwned], cursor: &mut usize, arg_num: u8) -> (r: Result<
        Self,
        FromValueError,
    >) {
        match next_value(values, cursor) {
            Some(v) => Self::from_value(v, arg_num),
            None => Err(FromValueError::NotEnoughArgs),
        }
    }
}

/// An optional argument is `None` where no literal is left; a literal that is
/// there must decode as `T`.
impl<T: FromValue> FromValue for Option<T> {
    open spec fn spec_from_value(value: LiteralView, arg_num: u8) -> Result<
        Option<T::V>,
        FromValueError,
    > {
        match T::spec_from_value(value, arg_num) {
            Ok(x) => Ok(Some(x)),
            Err(e) => Err(e),
        }
    }

    open spec fn spec_missing() -> Result<Option<T::V>, FromValueError> {
        Ok(None)
    }

    fn from_value(value: &ValueRawOwned, arg_num: u8) -> (r: Result<Self, FromValueError>) {
        match T::from_value(value, arg_num) {
            Ok(x) => Ok(Some(x)),
            Err(e) => Err(e),
        }
    }

    fn from_value_iter(values: &[ValueRawOwned], cursor: &mut usize, arg_num: u8) -> (r: Result<
        Self,
        FromValueError,
    >) {
        match next_value(values, cursor) {
            Some(v) => Self::from_value(v, arg_num),
            None => Ok(None),
        }
    }
}

/// The largest `i64` that a `usize` can hold.
pub open spec fn spec_usize_max() -> i64 {
    if usize::MAX > i64::MAX {
        i64::MAX
    } else {
        usize::MAX as i64
    }
}

#[verifier::when_used_as_spec(spec_usize_max)]
pub fn usize_max() -> (r: i64)
    ensures
        r == spec_usize_max(),
{
    if usize::MAX as u128 > i64::MAX as u128 {
        i64::MAX
    } else {
        usize::MAX as i64
    }
}

/// An integer argument takes an integer literal in the range of `i8`.
impl FromValue for i8 {
    open spec fn spec_from_value(value: LiteralView, arg_num: u8) -> Result<i8, FromValueError> {
        match int_in_range(value, arg_num, i8::MIN as i64, i8::MAX as i64) {
            Ok(n) => Ok(n as i8),
            Err(e) => Err(e),
        }
    }

    open spec fn spec_missing() -> Result<i8, FromValueError> {
        Err(FromValueError::NotEnoughArgs)
    }

    fn from_value(value: &ValueRawOwned, arg_num: u8) -> (r: Result<Self, FromValueError>) {
        match check_int(value, arg_num, i8::MIN as i64, i8::MAX as i64) {
            Ok(n) => Ok(n as i8),
            Err(e) => Err(e),
        }
    }

    fn from_value_iter(values: &[ValueRawOwned], cursor: &mut usize, arg_num: u8) -> (r: Result<
        Self,
        FromValueError,
    >) {
        match next_value(values, cursor) {
            Some(v) => Self::from_value(v, arg_num),
            None => Err(FromValueError::NotEnoughArgs),
        }
    }
}

/// An integer argument takes an integer literal in the range of `i16`.
impl FromValue for i16 {
    open spec fn spec_from_value(value: LiteralView, arg_num: u8) -> Result<i16, FromValueError> {
        match int_in_range(value, arg_num, i16::MIN as i64, i16::MAX as i64) {
            Ok(n) => Ok(n as i16),
            Err(e) => Err(e),
        }
    }

    open spec fn spec_missing() -> Result<i16, FromValueError> {
        Err(FromValueError::NotEnoughArgs)
    }

    fn from_value(value: &ValueRawOwned, arg_num: u8) -> (r: Result<Self, FromValueError>) {
        match check_int(value, arg_num, i16::MIN as i64, i16::MAX as i64) {
            Ok(n) => Ok(n as i16),
            Err(e) => Err(e),
        }
    }

    fn from_value_iter(values: &[ValueRawOwned], cursor: &mut usize, arg_num: u8) -> (r: Result<
        Self,
        FromValueError,
    >) {
        match next_value(values, cursor) {
            Some(v) => Self::from_value(v, arg_num),
            None => Err(FromValueError::NotEnoughArgs),
        }
    }
}

/// An integer argument takes an integer literal in the range of `i32`.
impl FromValue for i32 {
    open spec fn spec_from_value(value: LiteralView, arg_num: u8) -> Result<i32, FromValueError> {
        match int_in_range(value, arg_num, i32::MIN as i64, i32::MAX as i64) {
            Ok(n) => Ok(n as i32),
            Err(e) => Err(e),
        }
    }

    open spec fn spec_missing() -> Result<i32, FromValueError> {
        Err(FromValueError::NotEnoughArgs)
    }

    fn from_value(value: &ValueRawOwned, arg_num: u8) -> (r: Result<Self, FromValueError>) {
        match check_int(value, arg_num, i32::MIN as i64, i32::MAX as i64) {
            Ok(n) => Ok(n as i32),
            Err(e) => Err(e),
        }
    }

    fn from_value_iter(values: &[ValueRawOwned], cursor: &mut usize, arg_num: u8) -> (r: Result<
        Self,
        FromValueError,
    >) {
        match next_value(values, cursor) {
            Some(v) => Self::from_value(v, arg_num),
            None => Err(FromValueError::NotEnoughArgs),
        }
    }
}

/// An integer argument takes an integer literal in the range of `i64`.
impl FromValue for i64 {
    open spec fn spec_from_value(value: LiteralView, arg_num: u8) -> Result<i64, FromValueError> {
        match int_in_range(value, arg_num, i64::MIN, i64::MAX) {
            Ok(n) => Ok(n as i64),
            Err(e) => Err(e),
        }
    }

    open spec fn spec_missing() -> Result<i64, FromValueError> {
        Err(FromValueError::NotEnoughArgs)
    }

    fn from_value(value: &ValueRawOwned, arg_num: u8) -> (r: Result<Self, FromValueError>) {
        match check_int(value, arg_num, i64::MIN, i64::MAX) {
            Ok(n) => Ok(n as i64),
            Err(e) => Err(e),
        }
    }

    fn from_value_iter(values: &[ValueRawOwned], cursor: &mut usize, arg_num: u8) -> (r: Result<
        Self,
        FromValueError,
    >) {
        match next_value(values, cursor) {
            Some(v) => Self::from_value(v, arg_num),
            None => Err(FromValueError::NotEnoughArgs),
        }
    }
}

/// An integer argument takes an integer literal in the range of `i128`.
impl FromValue for i128 {
    open spec fn spec_from_value(value: LiteralView, arg_num: u8) -> Result<i128, FromValueError> {
        match int_in_range(value, arg_num, i64::MIN, i64::MAX) {
            Ok(n) => Ok(n as i128),
            Err(e) => Err(e),
        }
    }

    open spec fn spec_missing() -> Result<i128, FromValueError> {
        Err(FromValueError::NotEnoughArgs)
    }

    fn from_value(value: &ValueRawOwned, arg_num: u8) -> (r: Result<Self, FromValueError>) {
        match check_int(value, arg_num, i64::MIN, i64::MAX) {
            Ok(n) => Ok(n as i128),
            Err(e) => Err(e),
        }
    }

    fn from_value_iter(values: &[ValueRawOwned], cursor: &mut usize, arg_num: u8) -> (r: Result<
        Self,
        FromValueError,
    >) {
        match next_value(values, cursor) {
            Some(v) => Self::from_value(v, arg_num),
            None => Err(FromValueError::NotEnoughArgs),
        }
    }
}

/// An integer argument takes an integer literal in the range of `isize`.
impl FromValue for isize {
    open spec fn spec_from_value(value: LiteralView, arg_num: u8) -> Result<isize, FromValueError> {
        match int_in_range(value, arg_num, isize::MIN as i64, isize::MAX as i64) {
            Ok(n) => Ok(n as isize),
            Err(e) => Err(e),
        }
    }

    open spec fn spec_missing() -> Result<isize, FromValueError> {
        Err(FromValueError::NotEnoughArgs)
    }

    fn from_value(value: &ValueRawOwned, arg_num: u8) -> (r: Result<Self, FromValueError>) {
        match check_int(value, arg_num, isize::MIN as i64, isize::MAX as i64) {
            Ok(n) => Ok(n as isize),
            Err(e) => Err(e),
        }
    }

    fn from_value_iter(values: &[ValueRawOwned], cursor: &mut usize, arg_num: u8) -> (r: Result<
        Self,
        FromValueError,
    >) {
        match next_value(values, cursor) {
            Some(v) => Self::from_value(v, arg_num),
            None => Err(FromValueError::NotEnoughArgs),
        }
    }
}

/// An integer argument takes an integer literal in the range of `u8`.
impl FromValue for u8 {
    open spec fn spec_from_value(value: LiteralView, arg_num: u8) -> Result<u8, FromValueError> {
        match int_in_range(value, arg_num, 0, u8::MAX as i64) {
            Ok(n) => Ok(n as u8),
            Err(e) => Err(e),
        }
    }

    open spec fn spec_missing() -> Result<u8, FromValueError> {
        Err(FromValueError::NotEnoughArgs)
    }

    fn from_value(value: &ValueRawOwned, arg_num: u8) -> (r: Result<Self, FromValueError>) {
        match check_int(value, arg_num, 0, u8::MAX as i64) {
            Ok(n) => Ok(n as u8),
            Err(e) => Err(e),
        }
    }

    fn from_value_iter(values: &[ValueRawOwned], cursor: &mut usize, arg_num: u8) -> (r: Result<
        Self,
        FromValueError,
    >) {
        match next_value(values, cursor) {
            Some(v) => Self::from_value(v, arg_num),
            None => Err(FromValueError::NotEnoughArgs),
        }
    }
}

/// An integer argument takes an integer literal in the range of `u16`.
impl FromValue for u16 {
    open spec fn spec_from_value(value: LiteralView, arg_num: u8) -> Result<u16, FromValueError> {
        match int_in_range(value, arg_num, 0, u16::MAX as i64) {
            Ok(n) => Ok(n as u16),
            Err(e) => Err(e),
        }
    }

    open spec fn spec_missing() -> Result<u16, FromValueError> {
        Err(FromValueError::NotEnoughArgs)
    }

    fn from_value(value: &ValueRawOwned, arg_num: u8) -> (r: Result<Self, FromValueError>) {
        match check_int(value, arg_num, 0, u16::MAX as i64) {
            Ok(n) => Ok(n as u16),
            Err(e) => Err(e),
        }
    }

    fn from_value_iter(values: &[ValueRawOwned], cursor: &mut usize, arg_num: u8) -> (r: Result<
        Self,
        FromValueError,
    >) {
        match next_value(values, cursor) {
            Some(v) => Self::from_value(v, arg_num),
            None => Err(FromValueError::NotEnoughArgs),
        }
    }
}

/// An integer argument takes an integer literal in the range of `u32`.
impl FromValue for u32 {
    open spec fn spec_from_value(value: LiteralView, arg_num: u8) -> Result<u32, FromValueError> {
        match int_in_range(value, arg_num, 0, u32::MAX as i64) {
            Ok(n) => Ok(n as u32),
            Err(e) => Err(e),
        }
    }

    open spec fn spec_missing() -> Result<u32, FromValueError> {
        Err(FromValueError::NotEnoughArgs)
    }

    fn from_value(value: &ValueRawOwned, arg_num: u8) -> (r: Result<Self, FromValueError>) {
        match check_int(value, arg_num, 0, u32::MAX as i64) {
            Ok(n) => Ok(n as u32),
            Err(e) => Err(e),
        }
    }

    fn from_value_iter(values: &[ValueRawOwned], cursor: &mut usize, arg_num: u8) -> (r: Result<
        Self,
        FromValueError,
    >) {
        match next_value(values, cursor) {
            Some(v) => Self::from_value(v, arg_num),
            None => Err(FromValueError::NotEnoughArgs),
        }
    }
}

/// An integer argument takes an integer literal in the range of `u64`.
impl FromValue for u64 {
    open spec fn spec_from_value(value: LiteralView, arg_num: u8) -> Result<u64, FromValueError> {
        match int_in_range(value, arg_num, 0, i64::MAX) {
            Ok(n) => Ok(n as u64),
            Err(e) => Err(e),
        }
    }

    open spec fn spec_missing() -> Result<u64, FromValueError> {
        Err(FromValueError::NotEnoughArgs)
    }

    fn from_value(value: &ValueRawOwned, arg_num: u8) -> (r: Result<Self, FromValueError>) {
        match check_int(value, arg_num, 0, i64::MAX) {
            Ok(n) => Ok(n as u64),
            Err(e) => Err(e),
        }
    }

    fn from_value_iter(values: &[ValueRawOwned], cursor: &mut usize, arg_num: u8) -> (r: Result<
        Self,
        FromValueError,
    >) {
        match next_value(values, cursor) {
            Some(v) => Self::from_value(v, arg_num),
            None => Err(FromValueError::NotEnoughArgs),
        }
    }
}

/// An integer argument takes an integer literal in the range of `u128`.
impl FromValue for u128 {
    open spec fn spec_from_value(value: LiteralView, arg_num: u8) -> Result<u128, FromValueError> {
        match int_in_range(value, arg_num, 0, i64::MAX) {
            Ok(n) => Ok(n as u128),
            Err(e) => Err(e),
        }
    }

    open spec fn spec_missing() -> Result<u128, FromValueError> {
        Err(FromValueError::NotEnoughArgs)
    }

    fn from_value(value: &ValueRawOwned, arg_num: u8) -> (r: Result<Self, FromValueError>) {
        match check_int(value, arg_num, 0, i64::MAX) {
            Ok(n) => Ok(n as u128),
            Err(e) => Err(e),
        }
    }

    fn from_value_iter(values: &[ValueRawOwned], cursor: &mut usize, arg_num: u8) -> (r: Result<
        Self,
        FromValueError,
    >) {
        match next_value(values, cursor) {
            Some(v) => Self::from_value(v, arg_num),
            None => Err(FromValueError::NotEnoughArgs),
        }
    }
}

/// An integer argument takes an integer literal in the range of `usize`.
impl FromValue for usize {
    open spec fn spec_from_value(value: LiteralView, arg_num: u8) -> Result<usize, FromValueError> {
        match int_in_range(value, arg_num, 0, usize_max()) {
            Ok(n) => Ok(n as usize),
            Err(e) => Err(e),
        }
    }

    open spec fn spec_missing() -> Result<usize, FromValueError> {
        Err(FromValueError::NotEnoughArgs)
    }

    fn from_value(value: &ValueRawOwned, arg_num: u8) -> (r: Result<Self, FromValueError>) {
        match check_int(value, arg_num, 0, usize_max()) {
            Ok(n) => Ok(n as usize),
            Err(e) => Err(e),
        }
    }

    fn from_value_iter(values: &[ValueRawOwned], cursor: &mut usize, arg_num: u8) -> (r: Result<
        Self,
        FromValueError,
    >) {
        match next_value(values, cursor) {
            Some(v) => Self::from_value(v, arg_num),
            None => Err(FromValueError::NotEnoughArgs),
        }
    }
}

} // verus!
