//! Command schemas: the ordered fields a command takes, checked when the
//! command is defined, and the decoding of a list of literals against them.
use vstd::prelude::*;

use crate::decode::{FloatArg, FromValue};
use crate::error::FromValueError;
use crate::grammar::name_at;
use crate::parse::name_token;
use crate::text::chars_of;
use crate::value::{owned_views, LiteralView, Value, ValueRawOwned, ValueType, ValueView};

verus! {

/// One field of a command's arguments.
#[derive(Clone, Debug)]
pub struct Field {
    pub name: String,
    pub value_type: ValueType,
    pub optional: bool,
    pub description: String,
}

pub struct FieldView {
    pub name: Seq<char>,
    pub value_type: ValueType,
    pub optional: bool,
    pub description: Seq<char>,
}

impl View for Field {
    type V = FieldView;

    open spec fn view(&self) -> FieldView {
        FieldView {
            name: self.name@,
            value_type: self.value_type,
            optional: self.optional,
            description: self.description@,
        }
    }
}

pub open spec fn field_views(fs: Seq<Field>) -> Seq<FieldView> {
    fs.map_values(|f: Field| f@)
}

/// Why a schema is refused.
#[derive(Clone, Copy, Debug, PartialEq, Eq)]
pub enum SchemaError {
    /// The command name is not a letter or underscore followed by letters,
    /// digits and underscores.
    InvalidName,
    /// More fields than argument numbers (0 to 255).
    TooManyFields,
    /// A required field, at this index, comes after an optional one.
    RequiredAfterOptional { index: usize },
}

/// The largest number of fields of a schema: argument numbers are `u8`.
pub const MAX_FIELDS: usize = 256;

/// Whether `s` is a command name.
pub open spec fn is_command_name(s: Seq<char>) -> bool {
    name_at(s, 0) == Some(s.len() as int)
}

/// Whether every field after an optional one is optional too.
pub open spec fn optional_trailing(fs: Seq<FieldView>) -> bool {
    forall|i: int, j: int| 0 <= i < j < fs.len() && (#[trigger] fs[i]).optional ==> (#[trigger] fs[j]).optional
}

/// The first required field from `k` on that follows an optional one
/// (`seen`: whether one came before `k`).
pub open spec fn misplaced_from(fs: Seq<FieldView>, k: int, seen: bool) -> Option<int>
    decreases fs.len() - k,
{
    if k < 0 || k >= fs.len() {
        None
    } else if !fs[k].optional && seen {
        Some(k)
    } else {
        misplaced_from(fs, k + 1, seen || fs[k].optional)
    }
}

/// What defining a command with this name and these fields gives.
pub open spec fn schema_check(name: Seq<char>, fs: Seq<FieldView>) -> Result<(), SchemaError> {
    if !is_command_name(name) {
        Err(SchemaError::InvalidName)
    } else if fs.len() > MAX_FIELDS {
        Err(SchemaError::TooManyFields)
    } else {
        match misplaced_from(fs, 0, false) {
            Some(k) => Err(SchemaError::RequiredAfterOptional { index: k as usize }),
            None => Ok(()),
        }
    }
}

proof fn lemma_misplaced_from(fs: Seq<FieldView>, k: int, seen: bool)
    requires
        0 <= k <= fs.len(),
        seen <==> exists|i: int| 0 <= i < k && (#[trigger] fs[i]).optional,
        forall|i: int, j: int|
            0 <= i < j < k && (#[trigger] fs[i]).optional ==> (#[trigger] fs[j]).optional,
    ensures
        misplaced_from(fs, k, seen) is None <==> optional_trailing(fs),
        misplaced_from(fs, k, seen) matches Some(m) ==> k <= m < fs.len() && !fs[m].optional
            && exists|i: int| 0 <= i < m && (#[trigger] fs[i]).optional,
    decreases fs.len() - k,
{
    if k < fs.len() {
        if !fs[k].optional && seen {
            let i = choose|i: int| 0 <= i < k && (#[trigger] fs[i]).optional;
            assert(!optional_trailing(fs)) by {
                assert(fs[i].optional && !fs[k].optional);
            }
        } else {
            let seen2 = seen || fs[k].optional;
            assert(seen2 <==> exists|i: int| 0 <= i < k + 1 && (#[trigger] fs[i]).optional) by {
                if seen {
                    let i = choose|i: int| 0 <= i < k && (#[trigger] fs[i]).optional;
                    assert(0 <= i < k + 1 && fs[i].optional);
                }
                if fs[k].optional {
                    assert(0 <= k < k + 1 && fs[k].optional);
                }
            }
            assert forall|i: int, j: int|
                0 <= i < j < k + 1 && (#[trigger] fs[i]).optional implies (#[trigger] fs[j]).optional by {
                if j == k && !fs[k].optional {
                    assert(seen);
                }
            }
            lemma_misplaced_from(fs, k + 1, seen2);
        }
    }
}

/// A definition that is refused has a required field after an optional one
/// exactly where it says, and one that is accepted has its optional fields last.
pub proof fn lemma_schema_check(name: Seq<char>, fs: Seq<FieldView>)
    ensures
        schema_check(name, fs) is Ok <==> is_command_name(name) && fs.len() <= MAX_FIELDS
            && optional_trailing(fs),
        schema_check(name, fs) matches Err(SchemaError::RequiredAfterOptional { index }) ==> index
            < fs.len() && !fs[index as int].optional && exists|i: int|
            0 <= i < index && (#[trigger] fs[i]).optional,
{
    lemma_misplaced_from(fs, 0, false);
}

/// A command: its name, a one-line summary, the arguments it takes and its
/// help text.
pub struct CommandSchema {
    name: String,
    about: String,
    fields: Vec<Field>,
    help: String,
}

pub struct CommandSchemaView {
    pub name: Seq<char>,
    pub about: Seq<char>,
    pub fields: Seq<FieldView>,
    pub help: Seq<char>,
}

impl View for CommandSchema {
    type V = CommandSchemaView;

    closed spec fn view(&self) -> CommandSchemaView {
        CommandSchemaView {
            name: self.name@,
            about: self.about@,
            fields: field_views(self.fields@),
            help: self.help@,
        }
    }
}

impl CommandSchema {
    #[verifier::type_invariant]
    spec fn well_formed(self) -> bool {
        schema_check(self.name@, field_views(self.fields@)) is Ok
    }

    /// Defines a command, refusing a name that is not an identifier, more than
    /// `MAX_FIELDS` fields, and a required field after an optional one.
    pub fn new(name: String, about: String, fields: Vec<Field>, help: String) -> (r: Result<
        CommandSchema,
        SchemaError,
    >)
        ensures
            match r {
                Ok(s) => schema_check(name@, field_views(fields@)) is Ok && s@ == CommandSchemaView {
                    name: name@,
                    about: about@,
                    fields: field_views(fields@),
                    help: help@,
                },
                Err(e) => schema_check(name@, field_views(fields@)) == Err::<(), SchemaError>(e),
            },
    {
        let cs = chars_of(name.as_str());
        match name_token(&cs, 0) {
            Some(n) => if n != cs.len() {
                return Err(SchemaError::InvalidName);
            },
            None => return Err(SchemaError::InvalidName),
        }
        if fields.len() > MAX_FIELDS {
            return Err(SchemaError::TooManyFields);
        }
        let ghost fs = field_views(fields@);
        let mut seen = false;
        let mut k: usize = 0;
        while k < fields.len()
            invariant
                k <= fields.len(),
                fs == field_views(fields@),
                is_command_name(name@),
                fields.len() <= MAX_FIELDS,
                misplaced_from(fs, 0, false) == misplaced_from(fs, k as int, seen),
            decreases fields.len() - k,
        {
            let optional = fields[k].optional;
            assert(fs[k as int].optional == optional);
            if !optional && seen {
                return Err(SchemaError::RequiredAfterOptional { index: k });
            }
            seen = seen || optional;
            k = k + 1;
        }
        Ok(CommandSchema { name, about, fields, help })
    }

    pub fn name(&self) -> (r: &String)
        ensures
            r@ == self@.name,
    {
        &self.name
    }

    /// The fields; there are at most `MAX_FIELDS` of them, optional ones last.
    pub fn fields(&self) -> (r: &Vec<Field>)
        ensures
            field_views(r@) == self@.fields,
            r@.len() <= MAX_FIELDS,
            optional_trailing(self@.fields),
    {
        proof {
            use_type_invariant(self);
            lemma_schema_check(self@.name, self@.fields);
        }
        &self.fields
    }

    pub fn about(&self) -> (r: &String)
        ensures
            r@ == self@.about,
    {
        &self.about
    }

    pub fn help(&self) -> (r: &String)
        ensures
            r@ == self@.help,
    {
        &self.help
    }
}

/// What a field of this value type gives for one literal.
pub open spec fn field_value(t: ValueType, v: LiteralView, arg_num: u8) -> Result<
    ValueView,
    FromValueError,
> {
    match t {
        ValueType::String => match <String as FromValue>::spec_from_value(v, arg_num) {
            Ok(s) => Ok(ValueView::Str(s)),
            Err(e) => Err(e),
        },
        ValueType::Int => match <i64 as FromValue>::spec_from_value(v, arg_num) {
            Ok(n) => Ok(ValueView::Int(n)),
            Err(e) => Err(e),
        },
        ValueType::Float => match <FloatArg as FromValue>::spec_from_value(v, arg_num) {
            Ok(t) => Ok(ValueView::Float(t)),
            Err(e) => Err(e),
        },
        ValueType::Bool => match <bool as FromValue>::spec_from_value(v, arg_num) {
            Ok(b) => Ok(ValueView::Bool(b)),
            Err(e) => Err(e),
        },
    }
}

pub open spec fn prepend<T>(x: T, r: Result<Seq<T>, FromValueError>) -> Result<Seq<T>, FromValueError> {
    match r {
        Ok(rest) => Ok(seq![x] + rest),
        Err(e) => Err(e),
    }
}

/// Decoding literals against the fields from `k` on. Field `k` takes literal
/// `k` where there is one; an optional field with none left is `None`; a
/// required one with none left fails; a literal left after the last field fails.
pub open spec fn decode_from(fs: Seq<FieldView>, vs: Seq<LiteralView>, k: int) -> Result<
    Seq<Option<ValueView>>,
    FromValueError,
>
    decreases fs.len() - k,
{
    if k < 0 || k >= fs.len() {
        if fs.len() < vs.len() {
            Err(FromValueError::TooManyArgs)
        } else {
            Ok(Seq::empty())
        }
    } else if k < vs.len() {
        match field_value(fs[k].value_type, vs[k], k as u8) {
            Ok(v) => prepend(Some(v), decode_from(fs, vs, k + 1)),
            Err(e) => Err(e),
        }
    } else if fs[k].optional {
        prepend(None, decode_from(fs, vs, k + 1))
    } else {
        Err(FromValueError::NotEnoughArgs)
    }
}

/// Decoding a list of literals against a command's fields.
pub open spec fn decode_spec(fs: Seq<FieldView>, vs: Seq<LiteralView>) -> Result<
    Seq<Option<ValueView>>,
    FromValueError,
> {
    decode_from(fs, vs, 0)
}

pub open spec fn decoded_view(r: Result<Vec<Option<Value>>, FromValueError>) -> Result<
    Seq<Option<ValueView>>,
    FromValueError,
> {
    match r {
        Ok(v) => Ok(v.deep_view()),
        Err(e) => Err(e),
    }
}

/// Decodes the literal under the cursor as a field of type `t`.
fn decode_field(t: ValueType, optional: bool, values: &[ValueRawOwned], cursor: &mut usize, arg_num: u8) -> (r: Result<Option<Value>, FromValueError>)
    requires
        *old(cursor) <= values@.len(),
    ensures
        *old(cursor) < values@.len() ==> *final(cursor) == *old(cursor) + 1 && match field_value(
            t,
            values@[*old(cursor) as int]@,
            arg_num,
        ) {
            Ok(v) => r matches Ok(Some(w)) && w@ == v,
            Err(e) => r == Err::<Option<Value>, _>(e),
        },
        *old(cursor) == values@.len() ==> *final(cursor) == *old(cursor) && if optional {
            r matches Ok(None)
        } else {
            r == Err::<Option<Value>, _>(FromValueError::NotEnoughArgs)
        },
{
    if optional {
        match t {
            ValueType::String => match <Option<String>>::from_value_iter(values, cursor, arg_num) {
                Ok(Some(s)) => Ok(Some(Value::String(s))),
                Ok(None) => Ok(None),
                Err(e) => Err(e),
            },
            ValueType::Int => match <Option<i64>>::from_value_iter(values, cursor, arg_num) {
                Ok(Some(n)) => Ok(Some(Value::Int(n))),
                Ok(None) => Ok(None),
                Err(e) => Err(e),
            },
            ValueType::Float => match <Option<FloatArg>>::from_value_iter(values, cursor, arg_num) {
                Ok(Some(x)) => Ok(Some(Value::Float(x.0))),
                Ok(None) => Ok(None),
                Err(e) => Err(e),
            },
            ValueType::Bool => match <Option<bool>>::from_value_iter(values, cursor, arg_num) {
                Ok(Some(b)) => Ok(Some(Value::Bool(b))),
                Ok(None) => Ok(None),
                Err(e) => Err(e),
            },
        }
    } else {
        match t {
            ValueType::String => match String::from_value_iter(values, cursor, arg_num) {
                Ok(s) => Ok(Some(Value::String(s))),
                Err(e) => Err(e),
            },
            ValueType::Int => match i64::from_value_iter(values, cursor, arg_num) {
                Ok(n) => Ok(Some(Value::Int(n))),
                Err(e) => Err(e),
            },
            ValueType::Float => match FloatArg::from_value_iter(values, cursor, arg_num) {
                Ok(x) => Ok(Some(Value::Float(x.0))),
                Err(e) => Err(e),
            },
            ValueType::Bool => match bool::from_value_iter(values, cursor, arg_num) {
                Ok(b) => Ok(Some(Value::Bool(b))),
                Err(e) => Err(e),
            },
        }
    }
}

/// Decodes a list of literals against a command's fields, in order, field
/// `k` taking literal `k`: `None` for an optional field past the last
/// literal. The first error stops the decoding.
pub fn decode_fields(schema: &CommandSchema, values: &[ValueRawOwned]) -> (r: Result<
    Vec<Option<Value>>,
    FromValueError,
>)
    ensures
        decoded_view(r) == decode_spec(schema@.fields, owned_views(values@)),
{
    let fields = schema.fields();
    let ghost fs = schema@.fields;
    let ghost vs = owned_views(values@);
    let mut out: Vec<Option<Value>> = Vec::new();
    let mut cursor: usize = 0;
    let mut k: usize = 0;
    while k < fields.len()
        invariant
            k <= fields.len() <= MAX_FIELDS,
            fs == field_views(fields@),
            fs == schema@.fields,
            vs == owned_views(values@),
            cursor as int == if (k as int) < values@.len() { k as int } else { values@.len() as int },
            out.deep_view().len() == k,
            decode_spec(fs, vs) == match decode_from(fs, vs, k as int) {
                Ok(rest) => Ok(out.deep_view() + rest),
                Err(e) => Err::<Seq<Option<ValueView>>, _>(e),
            },
        decreases fields.len() - k,
    {
        let field = &fields[k];
        let ghost before = out.deep_view();
        assert(fs[k as int] == field@);
        assert((k as int) < values@.len() ==> vs[k as int] == values@[k as int]@);
        match decode_field(field.value_type, field.optional, values, &mut cursor, k as u8) {
            Ok(v) => {
                out.push(v);
                proof {
                    assert(out.deep_view() =~= before.push(v.deep_view()));
                    match decode_from(fs, vs, k + 1) {
                        Ok(rest) => {
                            assert(before + (seq![v.deep_view()] + rest) =~= out.deep_view() + rest);
                        },
                        Err(e) => {},
                    }
                }
            },
            Err(e) => {
                assert(decode_from(fs, vs, k as int) == Err::<Seq<Option<ValueView>>, _>(e));
                return Err(e);
            },
        }
        k = k + 1;
    }
    if fields.len() < values.len() {
        return Err(FromValueError::TooManyArgs);
    }
    assert(out.deep_view() + Seq::empty() =~= out.deep_view());
    Ok(out)
}

} // verus!
