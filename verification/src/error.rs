//! What can go wrong.

use crate::exec::{exit_status_error, outcome, ExecError};
use vstd::prelude::*;

verus! {

#[derive(Debug, PartialEq, Eq)]
pub enum Error {
    /// A program failed.
    Process(ExecError),
    /// A thread failed while it held a lock.
    MutexPoisoned(String),
    DdcNotFound,
    Exit,
}

impl Error {
    pub fn message(&self) -> (message: String)
        ensures
            message@ == match *self {
                Error::Process(error) => "IO error: "@ + error.text(),
                Error::MutexPoisoned(text) => "Mutex poisoned: "@ + text@,
                Error::DdcNotFound => "DDC monitor not found"@,
                Error::Exit => "Event loop exited"@,
            },
    {
        match self {
            Error::Process(error) => String::from_str("IO error: ").concat(
                error.message().as_str(),
            ),
            Error::MutexPoisoned(text) => String::from_str("Mutex poisoned: ").concat(
                text.as_str(),
            ),
            Error::DdcNotFound => String::from_str("DDC monitor not found"),
            Error::Exit => String::from_str("Event loop exited"),
        }
    }

    /// How a program turned out.
    pub fn from_exit_status(success: bool, code: Option<i32>) -> (r: Result<(), Error>)
        ensures
            r == match outcome(success, code) {
                Ok(()) => Ok(()),
                Err(error) => Err(Error::Process(error)),
            },
    {
        match exit_status_error(success, code) {
            Ok(()) => Ok(()),
            Err(error) => Err(Error::Process(error)),
        }
    }
}

/// A program that failed is told as such, with what went wrong.
pub proof fn failed_programs_are_told(
    success: bool,
    code: Option<i32>,
    r: Result<(), Error>,
    own: Result<(), ExecError>,
)
    requires
        call_ensures(Error::from_exit_status, (success, code), r),
        call_ensures(exit_status_error, (success, code), own),
    ensures
        r is Ok <==> success,
        r matches Err(error) ==> own is Err && error == Error::Process(own->Err_0),
{
}

} // verus!
