//! The commands a console knows, and the dispatch of a command line to one of them.
use vstd::prelude::*;

use crate::command::parse_console_command;
use crate::error::{error_message, parse_error_message, FromValueError, ParseError};
use crate::grammar::command_result;
use crate::order::{lemma_name_order, name_less, name_lt};
use crate::text::{chars_of, push_char};
use vstd::string::StringExecFns;
use crate::schema::{
    decode_fields, decode_spec, field_views, schema_check, CommandSchema, CommandSchemaView, Field,
    SchemaError,
};
use crate::value::{literal_views, owned_views, Value, ValueRaw, ValueRawOwned, ValueView};

verus! {

/// The commands of a list keyed by name; a later one replaces an earlier one
/// of the same name.
pub open spec fn schema_map(cs: Seq<CommandSchemaView>) -> Map<Seq<char>, CommandSchemaView>
    decreases cs.len(),
{
    if cs.len() == 0 {
        Map::empty()
    } else {
        schema_map(cs.drop_last()).insert(cs.last().name, cs.last())
    }
}

pub open spec fn names_unique(cs: Seq<CommandSchemaView>) -> bool {
    forall|i: int, j: int| 0 <= i < j < cs.len() ==> (#[trigger] cs[i]).name != (#[trigger] cs[j]).name
}

proof fn lemma_map_index(cs: Seq<CommandSchemaView>, i: int)
    requires
        names_unique(cs),
        0 <= i < cs.len(),
    ensures
        schema_map(cs).contains_key(cs[i].name),
        schema_map(cs)[cs[i].name] == cs[i],
    decreases cs.len(),
{
    if i < cs.len() - 1 {
        assert(cs.drop_last()[i] == cs[i]);
        assert(cs[i].name != cs[cs.len() - 1].name);
        lemma_map_index(cs.drop_last(), i);
    }
}

proof fn lemma_map_absent(cs: Seq<CommandSchemaView>, name: Seq<char>)
    requires
        forall|i: int| 0 <= i < cs.len() ==> (#[trigger] cs[i]).name != name,
    ensures
        !schema_map(cs).contains_key(name),
    decreases cs.len(),
{
    if cs.len() > 0 {
        assert forall|i: int| 0 <= i < cs.drop_last().len() implies (#[trigger] cs.drop_last()[i]).name
            != name by {
            assert(cs.drop_last()[i] == cs[i]);
        }
        lemma_map_absent(cs.drop_last(), name);
    }
}

proof fn lemma_map_update(cs: Seq<CommandSchemaView>, i: int, x: CommandSchemaView)
    requires
        names_unique(cs),
        0 <= i < cs.len(),
        cs[i].name == x.name,
    ensures
        schema_map(cs.update(i, x)) == schema_map(cs).insert(x.name, x),
    decreases cs.len(),
{
    let last = cs.len() - 1;
    if i == last {
        assert(cs.update(i, x).drop_last() =~= cs.drop_last());
        assert(schema_map(cs.update(i, x)) =~= schema_map(cs).insert(x.name, x));
    } else {
        assert(cs.update(i, x).drop_last() =~= cs.drop_last().update(i, x));
        assert(names_unique(cs.drop_last())) by {
            assert forall|a: int, b: int| 0 <= a < b < cs.drop_last().len() implies (
            #[trigger] cs.drop_last()[a]).name != (#[trigger] cs.drop_last()[b]).name by {
                assert(cs.drop_last()[a] == cs[a] && cs.drop_last()[b] == cs[b]);
            }
        }
        assert(cs.drop_last()[i] == cs[i]);
        lemma_map_update(cs.drop_last(), i, x);
        assert(cs[i].name != cs[last].name);
        assert(schema_map(cs.update(i, x)) =~= schema_map(cs).insert(x.name, x));
    }
}

proof fn lemma_map_insert(cs: Seq<CommandSchemaView>, p: int, x: CommandSchemaView)
    requires
        0 <= p <= cs.len(),
        forall|k: int| 0 <= k < cs.len() ==> (#[trigger] cs[k]).name != x.name,
    ensures
        schema_map(cs.insert(p, x)) == schema_map(cs).insert(x.name, x),
    decreases cs.len(),
{
    if p == cs.len() {
        assert(cs.insert(p, x) =~= cs.push(x));
        assert(cs.push(x).drop_last() =~= cs);
    } else {
        let last = cs.len() - 1;
        assert(cs.insert(p, x).drop_last() =~= cs.drop_last().insert(p, x));
        assert(cs.insert(p, x).last() == cs[last]);
        assert forall|k: int| 0 <= k < cs.drop_last().len() implies (#[trigger] cs.drop_last()[k]).name
            != x.name by {
            assert(cs.drop_last()[k] == cs[k]);
        }
        lemma_map_insert(cs.drop_last(), p, x);
        assert(cs[last].name != x.name);
        assert(schema_map(cs.insert(p, x)) =~= schema_map(cs).insert(x.name, x));
    }
}

/// Whether the names of a list of commands are in increasing order.
pub open spec fn sorted_by_name(cs: Seq<CommandSchemaView>) -> bool {
    forall|i: int, j: int| 0 <= i < j < cs.len() ==> name_lt((#[trigger] cs[i]).name, (#[trigger] cs[j]).name)
}

/// `n` spaces.
pub open spec fn spaces(n: nat) -> Seq<char> {
    Seq::new(n, |i: int| ' ')
}

/// The length of the longest name of a list of commands.
pub open spec fn name_width(cs: Seq<CommandSchemaView>) -> nat
    decreases cs.len(),
{
    if cs.len() == 0 {
        0
    } else if cs.last().name.len() > name_width(cs.drop_last()) {
        cs.last().name.len()
    } else {
        name_width(cs.drop_last())
    }
}

/// The line of the listing of commands that shows `c`, its name padded to `width`.
pub open spec fn listing_line(c: CommandSchemaView, width: nat) -> Seq<char> {
    "  "@ + c.name + spaces((width - c.name.len()) as nat) + " - "@ + c.about
}

/// The listing of commands: a heading, a line for each command, and an empty line.
pub open spec fn listing(cs: Seq<CommandSchemaView>) -> Seq<Seq<char>> {
    seq!["Available commands:"@] + cs.map_values(
        |c: CommandSchemaView| listing_line(c, name_width(cs)),
    ) + seq![Seq::<char>::empty()]
}

/// The help of a command of this name, or why there is none.
pub open spec fn help_text(commands: Map<Seq<char>, CommandSchemaView>, name: Seq<char>) -> Seq<char> {
    if commands.contains_key(name) {
        commands[name].help
    } else {
        "Command '"@ + name + "' does not exist"@
    }
}

pub open spec fn string_views(v: Seq<String>) -> Seq<Seq<char>> {
    v.map_values(|s: String| s@)
}

proof fn lemma_name_width(cs: Seq<CommandSchemaView>, i: int)
    requires
        0 <= i < cs.len(),
    ensures
        cs[i].name.len() <= name_width(cs),
    decreases cs.len(),
{
    if i < cs.len() - 1 {
        assert(cs.drop_last()[i] == cs[i]);
        lemma_name_width(cs.drop_last(), i);
    }
}

/// Appends `n` spaces.
fn push_spaces(out: &mut String, n: usize)
    ensures
        final(out)@ == old(out)@ + spaces(n as nat),
{
    let mut k: usize = 0;
    while k < n
        invariant
            k <= n,
            out@ == old(out)@ + spaces(k as nat),
        decreases n - k,
    {
        push_char(out, ' ');
        k = k + 1;
        assert(spaces(k as nat) =~= spaces((k - 1) as nat).push(' '));
    }
}

/// The commands a console knows, by name.
pub struct CommandRegistry {
    commands: Vec<CommandSchema>,
}

pub open spec fn schema_views(cs: Seq<CommandSchema>) -> Seq<CommandSchemaView> {
    cs.map_values(|c: CommandSchema| c@)
}

impl View for CommandRegistry {
    type V = Map<Seq<char>, CommandSchemaView>;

    closed spec fn view(&self) -> Map<Seq<char>, CommandSchemaView> {
        schema_map(schema_views(self.commands@))
    }
}

/// A command line decoded against the command it names.
pub struct Invocation {
    pub name: String,
    pub values: Vec<Option<Value>>,
}

/// Why a command line was not run.
#[derive(Clone, Debug, PartialEq)]
pub enum DispatchError {
    /// The line does not parse.
    Parse(ParseError),
    /// No command of this name is known.
    UnknownCommand(String),
    /// The arguments do not decode; the command's help text comes with the error.
    Decode { error: FromValueError, help: String },
}

pub enum DispatchErrorView {
    Parse(ParseError),
    UnknownCommand(Seq<char>),
    Decode(FromValueError, Seq<char>),
}

impl DispatchError {
    /// The one-line message of this error; the help text of a command whose
    /// arguments do not decode is not part of it.
    pub fn to_string(&self) -> (r: String)
        ensures
            r@ == match self {
                DispatchError::Parse(e) => parse_error_message(*e),
                DispatchError::UnknownCommand(_) => "error: Invalid command"@,
                DispatchError::Decode { error, .. } => error_message(*error),
            },
    {
        match self {
            DispatchError::Parse(e) => e.to_string(),
            DispatchError::UnknownCommand(_) => String::from_str("error: Invalid command"),
            DispatchError::Decode { error, .. } => error.to_string(),
        }
    }
}

/// What dispatching a command line gives: the command name and the decoded
/// arguments, or why it cannot run.
pub open spec fn dispatch_spec(commands: Map<Seq<char>, CommandSchemaView>, line: Seq<char>) -> Result<
    (Seq<char>, Seq<Option<ValueView>>),
    DispatchErrorView,
> {
    match command_result(line) {
        Err(e) => Err(DispatchErrorView::Parse(e)),
        Ok((name, args)) => if !commands.contains_key(name) {
            Err(DispatchErrorView::UnknownCommand(name))
        } else {
            match decode_spec(commands[name].fields, args) {
                Ok(values) => Ok((name, values)),
                Err(e) => Err(DispatchErrorView::Decode(e, commands[name].help)),
            }
        },
    }
}

impl CommandRegistry {
    /// The commands, in increasing order of their names.
    pub closed spec fn entries(&self) -> Seq<CommandSchemaView> {
        schema_views(self.commands@)
    }

    /// The commands are in increasing order of their names, and no two have
    /// the same name.
    pub closed spec fn well_formed(&self) -> bool {
        names_unique(self.entries()) && sorted_by_name(self.entries())
    }

    /// The commands of a registry, in increasing order of their names, are
    /// what it knows by name.
    pub proof fn lemma_entries(&self)
        requires
            self.well_formed(),
        ensures
            sorted_by_name(self.entries()),
            names_unique(self.entries()),
            schema_map(self.entries()) == self@,
    {
    }

    /// A registry that knows no command.
    pub fn new() -> (r: CommandRegistry)
        ensures
            r@ == Map::<Seq<char>, CommandSchemaView>::empty(),
            r.well_formed(),
    {
        let r = CommandRegistry { commands: Vec::new() };
        assert(r.entries() =~= Seq::<CommandSchemaView>::empty());
        r
    }

    fn position(&self, name: &String) -> (r: Option<usize>)
        ensures
            match r {
                Some(i) => i < self.commands@.len() && self.commands@[i as int]@.name == name@,
                None => forall|i: int|
                    0 <= i < self.commands@.len() ==> (#[trigger] self.commands@[i])@.name != name@,
            },
    {
        let mut i: usize = 0;
        while i < self.commands.len()
            invariant
                i <= self.commands@.len(),
                forall|k: int| 0 <= k < i ==> (#[trigger] self.commands@[k])@.name != name@,
            decreases self.commands@.len() - i,
        {
            if self.commands[i].name().eq(name) {
                return Some(i);
            }
            i = i + 1;
        }
        None
    }

    /// The command of this name, if there is one.
    pub fn find(&self, name: &str) -> (r: Option<&CommandSchema>)
        requires
            self.well_formed(),
        ensures
            match r {
                Some(s) => self@.contains_key(name@) && s@ == self@[name@],
                None => !self@.contains_key(name@),
            },
    {
        let key = name.to_owned();
        match self.position(&key) {
            Some(i) => {
                proof {
                    assert(schema_views(self.commands@)[i as int] == self.commands@[i as int]@);
                    lemma_map_index(schema_views(self.commands@), i as int);
                }
                Some(&self.commands[i])
            },
            None => {
                proof {
                    let cs = schema_views(self.commands@);
                    assert forall|i: int| 0 <= i < cs.len() implies (#[trigger] cs[i]).name != name@ by {
                        assert(cs[i] == self.commands@[i]@);
                    }
                    lemma_map_absent(cs, name@);
                }
                None
            },
        }
    }

    /// The listing of the known commands, in increasing order of their names:
    /// a heading, a line `  name - about` for each, its name padded with spaces
    /// to the longest name, and an empty line.
    pub fn help_lines(&self) -> (r: Vec<String>)
        ensures
            string_views(r@) == listing(self.entries()),
    {
        let ghost cs = self.entries();
        let mut width: usize = 0;
        let mut k: usize = 0;
        while k < self.commands.len()
            invariant
                k <= self.commands@.len(),
                cs == self.entries(),
                width as nat == name_width(cs.take(k as int)),
            decreases self.commands@.len() - k,
        {
            let n = chars_of(self.commands[k].name().as_str()).len();
            proof {
                assert(cs.take(k + 1).drop_last() =~= cs.take(k as int));
                assert(cs[k as int] == self.commands@[k as int]@);
            }
            if n > width {
                width = n;
            }
            k = k + 1;
        }
        assert(cs.take(cs.len() as int) =~= cs);
        let mut out: Vec<String> = Vec::new();
        out.push(String::from_str("Available commands:"));
        let mut k: usize = 0;
        while k < self.commands.len()
            invariant
                k <= self.commands@.len(),
                cs == self.entries(),
                width as nat == name_width(cs),
                string_views(out@) == seq!["Available commands:"@] + cs.take(k as int).map_values(
                    |c: CommandSchemaView| listing_line(c, name_width(cs)),
                ),
            decreases self.commands@.len() - k,
        {
            let command = &self.commands[k];
            let name = command.name();
            let n = chars_of(name.as_str()).len();
            proof {
                assert(cs[k as int] == command@);
                lemma_name_width(cs, k as int);
            }
            let mut line = String::from_str("  ");
            line.append(name.as_str());
            push_spaces(&mut line, width - n);
            line.append(" - ");
            line.append(command.about().as_str());
            let ghost before = string_views(out@);
            out.push(line);
            proof {
                assert(string_views(out@) =~= before.push(line@));
                assert(cs.take(k + 1) =~= cs.take(k as int).push(cs[k as int]));
                assert(line@ =~= listing_line(cs[k as int], name_width(cs)));
                assert(string_views(out@) =~= seq!["Available commands:"@] + cs.take(k + 1).map_values(
                    |c: CommandSchemaView| listing_line(c, name_width(cs)),
                ));
            }
            k = k + 1;
        }
        let ghost before = string_views(out@);
        out.push(String::new());
        assert(string_views(out@) =~= before.push(Seq::<char>::empty()));
        assert(string_views(out@) =~= listing(cs));
        out
    }

    /// The help text of the command of this name, or a line saying that there
    /// is none.
    pub fn help_for(&self, name: &str) -> (r: String)
        requires
            self.well_formed(),
        ensures
            r@ == help_text(self@, name@),
    {
        match self.find(name) {
            Some(command) => command.help().clone(),
            None => {
                let mut m = String::from_str("Command '");
                m.append(name);
                m.append("' does not exist");
                m
            },
        }
    }

    /// Defines a command and adds it, in place of any command of the same
    /// name. A definition that `CommandSchema::new` refuses leaves the
    /// registry as it was.
    pub fn register(&mut self, name: String, about: String, fields: Vec<Field>, help: String) -> (r:
        Result<(), SchemaError>)
        requires
            old(self).well_formed(),
        ensures
            final(self).well_formed(),
            match r {
                Ok(()) => schema_check(name@, field_views(fields@)) is Ok && final(self)@ == old(
                    self,
                )@.insert(
                    name@,
                    CommandSchemaView {
                        name: name@,
                        about: about@,
                        fields: field_views(fields@),
                        help: help@,
                    },
                ),
                Err(e) => schema_check(name@, field_views(fields@)) == Err::<(), SchemaError>(e)
                    && final(self)@ == old(self)@,
            },
    {
        let schema = match CommandSchema::new(name, about, fields, help) {
            Ok(s) => s,
            Err(e) => return Err(e),
        };
        let ghost x = schema@;
        let ghost before = schema_views(self.commands@);
        match self.position(schema.name()) {
            Some(i) => {
                self.commands.set(i, schema);
                proof {
                    assert(schema_views(self.commands@) =~= before.update(i as int, x));
                    assert(before[i as int] == old(self).commands@[i as int]@);
                    lemma_map_update(before, i as int, x);
                    assert forall|a: int, b: int|
                        0 <= a < b < schema_views(self.commands@).len() implies (
                    #[trigger] schema_views(self.commands@)[a]).name != (
                    #[trigger] schema_views(self.commands@)[b]).name by {
                        assert(before[a] == old(self).commands@[a]@);
                        assert(before[b] == old(self).commands@[b]@);
                    }
                    assert forall|a: int, b: int|
                        0 <= a < b < schema_views(self.commands@).len() implies name_lt(
                        (#[trigger] schema_views(self.commands@)[a]).name,
                        (#[trigger] schema_views(self.commands@)[b]).name,
                    ) by {
                        assert(before[a] == old(self).commands@[a]@);
                        assert(before[b] == old(self).commands@[b]@);
                    }
                }
            },
            None => {
                let key = chars_of(schema.name().as_str());
                let mut p: usize = 0;
                while p < self.commands.len() && name_less(
                    &chars_of(self.commands[p].name().as_str()),
                    &key,
                )
                    invariant
                        p <= self.commands@.len(),
                        self.commands@ == old(self).commands@,
                        key@ == x.name,
                        forall|k: int| 0 <= k < p ==> name_lt((#[trigger] before[k]).name, x.name),
                        before == schema_views(self.commands@),
                    decreases self.commands@.len() - p,
                {
                    proof {
                        assert(before[p as int] == self.commands@[p as int]@);
                    }
                    p = p + 1;
                }
                proof {
                    if p < before.len() {
                        assert(before[p as int] == self.commands@[p as int]@);
                    }
                }
                self.commands.insert(p, schema);
                proof {
                    let after = schema_views(self.commands@);
                    assert(after =~= before.insert(p as int, x));
                    assert forall|k: int| 0 <= k < before.len() implies (#[trigger] before[k]).name
                        != x.name by {
                        assert(before[k] == old(self).commands@[k]@);
                    }
                    lemma_map_insert(before, p as int, x);
                    assert forall|a: int, b: int| 0 <= a < b < after.len() implies (
                    #[trigger] after[a]).name != (#[trigger] after[b]).name by {
                        if a < p && b < p {
                        } else if a < p && b == p {
                        } else if a < p {
                            assert(after[b] == before[b - 1]);
                        } else if a == p {
                            assert(after[b] == before[b - 1]);
                        } else {
                            assert(after[a] == before[a - 1] && after[b] == before[b - 1]);
                        }
                    }
                    if p < before.len() {
                        lemma_name_order(before[p as int].name, x.name, x.name);
                    }
                    assert forall|a: int, b: int| 0 <= a < b < after.len() implies name_lt(
                        (#[trigger] after[a]).name,
                        (#[trigger] after[b]).name,
                    ) by {
                        if b == p {
                            assert(after[a] == before[a]);
                        } else if a == p {
                            assert(after[b] == before[b - 1]);
                            if b - 1 > p {
                                lemma_name_order(x.name, before[p as int].name, before[b - 1].name);
                            }
                        } else if b < p {
                            assert(after[a] == before[a] && after[b] == before[b]);
                        } else if a < p {
                            assert(after[a] == before[a] && after[b] == before[b - 1]);
                            lemma_name_order(before[a].name, x.name, before[p as int].name);
                            if b - 1 > p {
                                lemma_name_order(before[a].name, before[p as int].name, before[b - 1].name);
                            }
                        } else {
                            assert(after[a] == before[a - 1] && after[b] == before[b - 1]);
                        }
                    }
                }
            },
        }
        Ok(())
    }

    /// Parses a command line, finds the command it names and decodes its
    /// arguments against that command's fields.
    pub fn dispatch(&self, line: &str) -> (r: Result<Invocation, DispatchError>)
        requires
            self.well_formed(),
        ensures
            match dispatch_spec(self@, line@) {
                Ok((name, values)) => r matches Ok(inv) && inv.name@ == name
                    && inv.values.deep_view() == values,
                Err(DispatchErrorView::Parse(e)) => r == Err::<Invocation, _>(DispatchError::Parse(e)),
                Err(DispatchErrorView::UnknownCommand(name)) => r matches Err(
                    DispatchError::UnknownCommand(n),
                ) && n@ == name,
                Err(DispatchErrorView::Decode(e, help)) => r matches Err(
                    DispatchError::Decode { error, help: h },
                ) && error == e && h@ == help,
            },
    {
        let cmd = match parse_console_command(line) {
            Ok(c) => c,
            Err(e) => return Err(DispatchError::Parse(e)),
        };
        let schema = match self.find(cmd.command) {
            Some(s) => s,
            None => return Err(DispatchError::UnknownCommand(cmd.command.to_owned())),
        };
        let owned = to_owned_values(&cmd.args);
        match decode_fields(schema, owned.as_slice()) {
            Ok(values) => Ok(Invocation { name: cmd.command.to_owned(), values }),
            Err(error) => Err(DispatchError::Decode { error, help: schema.help().clone() }),
        }
    }
}

/// The owned forms of a list of borrowing literals.
pub fn to_owned_values(args: &Vec<ValueRaw<'_>>) -> (r: Vec<ValueRawOwned>)
    ensures
        owned_views(r@) == literal_views(args@),
{
    let mut out: Vec<ValueRawOwned> = Vec::new();
    let mut k: usize = 0;
    while k < args.len()
        invariant
            k <= args.len(),
            owned_views(out@) == literal_views(args@.take(k as int)),
        decreases args.len() - k,
    {
        let ghost before = out@;
        out.push(ValueRawOwned::from_ref(&args[k]));
        assert(owned_views(out@) =~= owned_views(before).push(args@[k as int]@));
        assert(literal_views(args@.take(k + 1)) =~= literal_views(args@.take(k as int)).push(
            args@[k as int]@,
        ));
        k = k + 1;
    }
    assert(args@.take(args.len() as int) =~= args@);
    out
}

} // verus!
