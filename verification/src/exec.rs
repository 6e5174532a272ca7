//! Programs that are run.

use crate::text::{decimal, push_signed_decimal, signed_decimal};
use vstd::prelude::*;

verus! {

/// A program and its arguments.
#[derive(Debug, PartialEq, Eq)]
pub struct Command {
    pub program: String,
    pub args: Vec<String>,
}

/// A program that is to be run, where one is named.
#[derive(Debug, PartialEq, Eq)]
pub struct Builder {
    pub child: Option<Command>,
}

#[derive(Debug, Clone, Copy, PartialEq, Eq, Structural)]
pub enum ExecError {
    /// No program is named.
    MissingCommand,
    /// The program exited with a code other than 0.
    Exited(i32),
    /// The program was ended otherwise.
    Failed,
}

impl ExecError {
    pub open spec fn text(self) -> Seq<char> {
        match self {
            ExecError::MissingCommand => "Missing exec command"@,
            ExecError::Exited(code) => "process exited with code "@ + signed_decimal(code as int),
            ExecError::Failed => "process exited with a failure"@,
        }
    }

    pub fn message(&self) -> (message: String)
        ensures
            message@ == self.text(),
    {
        match *self {
            ExecError::MissingCommand => String::from_str("Missing exec command"),
            ExecError::Exited(code) => {
                let mut message = String::from_str("process exited with code ");
                push_signed_decimal(&mut message, code);
                message
            },
            ExecError::Failed => String::from_str("process exited with a failure"),
        }
    }
}

impl Builder {
    /// The program to run.
    pub fn into_command(self) -> (command: Result<Command, ExecError>)
        ensures
            command == match self.child {
                Some(command) => Ok(command),
                None => Err(ExecError::MissingCommand),
            },
    {
        match self.child {
            Some(command) => Ok(command),
            None => Err(ExecError::MissingCommand),
        }
    }
}

/// Names a program and its arguments, which come after it.
pub fn exec(args: Vec<String>) -> (builder: Builder)
    ensures
        args@.len() == 0 ==> builder.child is None,
        args@.len() > 0 ==> (builder.child matches Some(command) && command.program == args@[0]
            && command.args@ == args@.skip(1)),
{
    let mut args = args;
    let child = if args.len() > 0 {
        let program = args.remove(0);
        Some(Command { program, args })
    } else {
        None
    };
    Builder { child }
}

/// How a program turned out: by whether it succeeded, and by its code where it
/// has one.
pub open spec fn outcome(success: bool, code: Option<i32>) -> Result<(), ExecError> {
    if success {
        Ok(())
    } else {
        match code {
            Some(code) => Err(ExecError::Exited(code)),
            None => Err(ExecError::Failed),
        }
    }
}

pub fn exit_status_error(success: bool, code: Option<i32>) -> (r: Result<(), ExecError>)
    ensures
        r == outcome(success, code),
{
    if success {
        Ok(())
    } else {
        match code {
            Some(code) => Err(ExecError::Exited(code)),
            None => Err(ExecError::Failed),
        }
    }
}

/// The first word names the program and all others are its arguments, in order;
/// without a word there is no program.
pub proof fn programs_are_run_with_their_arguments(
    args: Vec<String>,
    builder: Builder,
    command: Result<Command, ExecError>,
)
    requires
        call_ensures(exec, (args,), builder),
        call_ensures(Builder::into_command, (builder,), command),
    ensures
        command is Err <==> args@.len() == 0,
        command matches Err(error) ==> error is MissingCommand,
        command matches Ok(own) ==> seq![own.program] + own.args@ == args@,
{
    if let Ok(own) = command {
        assert(seq![own.program] + own.args@ =~= args@);
    }
}

/// A program that succeeded is no error, whatever its code; one that did not is told
/// by its code, where it has one.
pub proof fn exits_are_told_by_their_code(
    success: bool,
    code: Option<i32>,
    r: Result<(), ExecError>,
)
    requires
        call_ensures(exit_status_error, (success, code), r),
    ensures
        r is Ok <==> success,
        r matches Err(error) ==> match code {
            Some(own) => error == ExecError::Exited(own),
            None => error is Failed,
        },
{
}

/// A program that failed is told by its code, with its sign.
pub proof fn failures_are_told(error: ExecError, message: String)
    requires
        call_ensures(ExecError::message, (&error,), message),
    ensures
        error is MissingCommand ==> message@ == "Missing exec command"@,
        error is Failed ==> message@ == "process exited with a failure"@,
        error matches ExecError::Exited(code) ==> {
            &&& code >= 0 ==> message@ == "process exited with code "@ + decimal(code as nat)
            &&& code < 0 ==> message@ == "process exited with code "@ + (seq!['-'] + decimal(
                (-code) as nat,
            ))
        },
{
}

} // verus!
