//! What a command handler sees: the command it was invoked with, taken once,
//! and the lines it sends back to the console.
use vstd::prelude::*;

use crate::error::FromValueError;
use crate::registry::{help_text, listing, string_views, CommandRegistry};
use vstd::string::StringExecFns;

verus! {

/// A line to print in the console.
#[derive(Clone, Debug, PartialEq, Eq)]
pub struct PrintConsoleLine {
    /// Console line
    pub line: String,
}

impl PrintConsoleLine {
    /// Creates a new console line to print.
    pub fn new(line: String) -> (r: Self)
        ensures
            r.line == line,
    {
        Self { line }
    }
}

pub open spec fn line_views(v: Seq<PrintConsoleLine>) -> Seq<Seq<char>> {
    v.map_values(|l: PrintConsoleLine| l.line@)
}

/// A command handed to its handler, and the lines the handler replies with.
pub struct ConsoleCommand<T> {
    command: Option<Result<T, FromValueError>>,
    console_lines: Vec<PrintConsoleLine>,
}

impl<T> ConsoleCommand<T> {
    /// The command still to be taken.
    pub closed spec fn pending(&self) -> Option<Result<T, FromValueError>> {
        self.command
    }

    /// The lines replied so far, in order.
    pub closed spec fn replies(&self) -> Seq<Seq<char>> {
        line_views(self.console_lines@)
    }

    /// A handler's view of a command: `None` where the command was not entered.
    pub fn new(command: Option<Result<T, FromValueError>>) -> (r: Self)
        ensures
            r.pending() == command,
            r.replies() == Seq::<Seq<char>>::empty(),
    {
        let r = ConsoleCommand { command, console_lines: Vec::new() };
        assert(r.replies() =~= Seq::<Seq<char>>::empty());
        r
    }

    /// Returns the command if it was entered. A second call returns `None`.
    pub fn take(&mut self) -> (r: Option<Result<T, FromValueError>>)
        ensures
            r == old(self).pending(),
            final(self).pending() is None,
            final(self).replies() == old(self).replies(),
    {
        self.command.take()
    }

    fn send(&mut self, line: String)
        ensures
            final(self).pending() == old(self).pending(),
            final(self).replies() == old(self).replies().push(line@),
    {
        self.console_lines.push(PrintConsoleLine::new(line));
        assert(line_views(self.console_lines@) =~= line_views(old(self).console_lines@).push(line@));
    }

    /// Print `[ok]` in the console.
    pub fn ok(&mut self)
        ensures
            final(self).pending() == old(self).pending(),
            final(self).replies() == old(self).replies().push("[ok]"@),
    {
        self.send(String::from_str("[ok]"));
    }

    /// Print `[failed]` in the console.
    pub fn failed(&mut self)
        ensures
            final(self).pending() == old(self).pending(),
            final(self).replies() == old(self).replies().push("[failed]"@),
    {
        self.send(String::from_str("[failed]"));
    }

    /// Print a reply in the console.
    pub fn reply(&mut self, msg: String)
        ensures
            final(self).pending() == old(self).pending(),
            final(self).replies() == old(self).replies().push(msg@),
    {
        self.send(msg);
    }

    /// Print a reply in the console followed by `[ok]`.
    pub fn reply_ok(&mut self, msg: String)
        ensures
            final(self).pending() == old(self).pending(),
            final(self).replies() == old(self).replies().push(msg@).push("[ok]"@),
    {
        self.send(msg);
        self.ok();
    }

    /// Print a reply in the console followed by `[failed]`.
    pub fn reply_failed(&mut self, msg: String)
        ensures
            final(self).pending() == old(self).pending(),
            final(self).replies() == old(self).replies().push(msg@).push("[failed]"@),
    {
        self.send(msg);
        self.failed();
    }

    /// The lines replied, to be printed in order.
    pub fn into_lines(self) -> (r: Vec<PrintConsoleLine>)
        ensures
            line_views(r@) == self.replies(),
    {
        self.console_lines
    }
}

/// The built-in `help` command: with a command name, replies that command's
/// help text; without one, replies the listing of all commands.
pub fn help_command(help: &mut ConsoleCommand<Option<String>>, registry: &CommandRegistry)
    requires
        registry.well_formed(),
    ensures
        final(help).pending() is None,
        match old(help).pending() {
            Some(Ok(Some(name))) => final(help).replies() == old(help).replies().push(
                help_text(registry@, name@),
            ),
            Some(Ok(None)) => final(help).replies() == old(help).replies() + listing(
                registry.entries(),
            ),
            _ => final(help).replies() == old(help).replies(),
        },
{
    match help.take() {
        Some(Ok(Some(name))) => {
            let text = registry.help_for(name.as_str());
            help.reply(text);
        },
        Some(Ok(None)) => {
            let lines = registry.help_lines();
            let ghost start = help.replies();
            let mut k: usize = 0;
            while k < lines.len()
                invariant
                    k <= lines.len(),
                    help.pending() is None,
                    help.replies() == start + string_views(lines@).take(k as int),
                decreases lines.len() - k,
            {
                help.reply(lines[k].clone());
                assert(string_views(lines@).take(k + 1) =~= string_views(lines@).take(k as int).push(
                    lines@[k as int]@,
                ));
                assert(start + string_views(lines@).take(k + 1) =~= (start + string_views(
                    lines@,
                ).take(k as int)).push(lines@[k as int]@));
                k = k + 1;
            }
            assert(string_views(lines@).take(lines.len() as int) =~= string_views(lines@));
        },
        _ => {},
    }
}

/// The built-in `exit` command: replies `[ok]` and says to exit where the
/// command was entered.
pub fn exit_command(exit: &mut ConsoleCommand<()>) -> (r: bool)
    ensures
        final(exit).pending() is None,
        r == (old(exit).pending() matches Some(Ok(_))),
        r ==> final(exit).replies() == old(exit).replies().push("[ok]"@),
        !r ==> final(exit).replies() == old(exit).replies(),
{
    if let Some(Ok(_)) = exit.take() {
        exit.ok();
        true
    } else {
        false
    }
}

/// The built-in `clear` command: says to clear the console where the
/// command was entered.
pub fn clear_command(clear: &mut ConsoleCommand<()>) -> (r: bool)
    ensures
        final(clear).pending() is None,
        final(clear).replies() == old(clear).replies(),
        r == (old(clear).pending() matches Some(Ok(_))),
{
    if let Some(Ok(_)) = clear.take() {
        true
    } else {
        false
    }
}

} // verus!
