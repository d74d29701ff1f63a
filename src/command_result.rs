//! What a command handler reports back.
use vstd::prelude::*;

verus! {

/// Whether a command succeeded, and the message it leaves.
pub struct CommandResult {
    pub success: bool,
    pub message: Option<String>,
}

/// Values that a command handler can return.
pub trait IntoCommandResult: Sized {
    fn into_command_result(self) -> CommandResult;
}

impl IntoCommandResult for CommandResult {
    fn into_command_result(self) -> (r: CommandResult)
        ensures
            r == self,
    {
        self
    }
}

/// Nothing to say: success without a message.
impl IntoCommandResult for () {
    fn into_command_result(self) -> (r: CommandResult)
        ensures
            r.success && r.message is None,
    {
        CommandResult { success: true, message: None }
    }
}

/// A message: success with that message.
impl IntoCommandResult for String {
    fn into_command_result(self) -> (r: CommandResult)
        ensures
            r.success && r.message == Some(self),
    {
        CommandResult { success: true, message: Some(self) }
    }
}

/// Perhaps a message: success with it.
impl IntoCommandResult for Option<String> {
    fn into_command_result(self) -> (r: CommandResult)
        ensures
            r.success && r.message == self,
    {
        CommandResult { success: true, message: self }
    }
}

/// `Ok` succeeds and `Err` fails, each with its message.
impl IntoCommandResult for Result<String, String> {
    fn into_command_result(self) -> (r: CommandResult)
        ensures
            match self {
                Ok(m) => r.success && r.message == Some(m),
                Err(m) => !r.success && r.message == Some(m),
            },
    {
        match self {
            Ok(msg) => CommandResult { success: true, message: Some(msg) },
            Err(err) => CommandResult { success: false, message: Some(err) },
        }
    }
}

} // verus!
