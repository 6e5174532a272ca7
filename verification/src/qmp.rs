//! The agent's commands, and how their data is written down.

pub mod base64;
pub mod base64_opt;

use vstd::prelude::*;

verus! {

/// A command of the agent.
pub trait QapiCommand {
    /// What the agent answers.
    type Ok;

    spec fn text() -> Seq<char>;

    /// The name of the command.
    fn name() -> (name: &'static str)
        ensures
            name@ == Self::text(),
    ;
}

/// A connection to the agent.
pub trait Qapi: Sized {
    type Error;

    fn handshake() -> Result<(), Self::Error>;

    fn execute<C: QapiCommand>(&mut self, command: C) -> Result<C::Ok, Self::Error>;
}

/// What the agent says that went wrong.
#[derive(Debug, Clone, PartialEq, Eq)]
pub struct QapiError {
    pub desc: String,
}

/// What the agent answers to a command.
pub enum QapiResponse<C: QapiCommand> {
    Failed(QapiError),
    Done(C::Ok),
}

/// Runs a program in the guest.
#[derive(Debug, Clone, PartialEq, Eq)]
pub struct GuestExec {
    pub path: String,
    pub arg: Vec<String>,
    pub env: Vec<String>,
    pub input_data: Option<Vec<u8>>,
    pub capture_output: Option<bool>,
}

impl Default for GuestExec {
    fn default() -> (exec: Self)
        ensures
            exec.path@.len() == 0,
            exec.arg@.len() == 0,
            exec.env@.len() == 0,
            exec.input_data is None,
            exec.capture_output is None,
    {
        GuestExec {
            path: String::new(),
            arg: Vec::new(),
            env: Vec::new(),
            input_data: None,
            capture_output: None,
        }
    }
}

/// The program that runs.
#[derive(Debug, Clone, Copy, PartialEq, Eq, Structural)]
pub struct GuestExecResponse {
    pub pid: i32,
}

impl QapiCommand for GuestExec {
    type Ok = GuestExecResponse;

    open spec fn text() -> Seq<char> {
        "guest-exec"@
    }

    fn name() -> (name: &'static str) {
        "guest-exec"
    }
}

/// Asks how a program is doing.
#[derive(Debug, Clone, Copy, PartialEq, Eq, Structural)]
pub struct GuestExecStatus {
    pub pid: i32,
}

impl Default for GuestExecStatus {
    fn default() -> (status: Self)
        ensures
            status.pid == 0,
    {
        GuestExecStatus { pid: 0 }
    }
}

impl From<GuestExecResponse> for GuestExecStatus {
    fn from(v: GuestExecResponse) -> (status: Self) {
        GuestExecStatus { pid: v.pid }
    }
}

impl vstd::std_specs::convert::FromSpecImpl<GuestExecResponse> for GuestExecStatus {
    open spec fn obeys_from_spec() -> bool {
        true
    }

    open spec fn from_spec(v: GuestExecResponse) -> Self {
        GuestExecStatus { pid: v.pid }
    }
}

/// How a program is doing.
#[derive(Debug, Clone, PartialEq, Eq)]
pub struct GuestExecStatusResponse {
    pub exited: bool,
    pub exitcode: Option<i32>,
    pub signal: Option<i32>,
    pub out_data: Option<Vec<u8>>,
    pub err_data: Option<Vec<u8>>,
    pub out_truncated: Option<bool>,
    pub err_truncated: Option<bool>,
}

impl QapiCommand for GuestExecStatus {
    type Ok = GuestExecStatusResponse;

    open spec fn text() -> Seq<char> {
        "guest-exec-status"@
    }

    fn name() -> (name: &'static str) {
        "guest-exec-status"
    }
}

/// The commands have the names that the agent knows them by, and a program is asked
/// about by the id that it was started with.
pub proof fn commands_have_their_names(
    exec: &'static str,
    status: &'static str,
    response: GuestExecResponse,
    asked: GuestExecStatus,
)
    requires
        call_ensures(<GuestExec as QapiCommand>::name, (), exec),
        call_ensures(<GuestExecStatus as QapiCommand>::name, (), status),
        call_ensures(<GuestExecStatus as From<GuestExecResponse>>::from, (response,), asked),
    ensures
        exec@ == "guest-exec"@,
        status@ == "guest-exec-status"@,
        asked.pid == response.pid,
{
}

} // verus!
