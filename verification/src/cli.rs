//! The arguments that the program is started with.
//!
//! The first argument behind the program's name is the process identifier,
//! written in decimal; what follows it is not read.

use crate::decimal::{parse_u32, spec_parse_u32};
use vstd::prelude::*;

verus! {

/// The exit code of a run that was refused for its arguments.
pub const USAGE_EXIT_CODE: i32 = 1;

/// The exit code of a run that went through, whatever it could list.
pub const LISTED_EXIT_CODE: i32 = 0;

/// Why the arguments were refused.
#[derive(Clone, Copy, Debug, PartialEq, Eq, Structural)]
pub enum UsageError {
    /// No process identifier was given.
    MissingPid,
    /// The argument is no 32-bit unsigned number.
    InvalidPid,
}

/// The diagnostic for refused arguments.
pub open spec fn usage_message(error: UsageError) -> Seq<char> {
    match error {
        UsageError::MissingPid => "Please provide a process ID (PID) as an argument."@,
        UsageError::InvalidPid => "Invalid PID provided."@,
    }
}

/// The process identifier that the arguments name.
pub open spec fn spec_parse_args(args: Seq<Seq<char>>) -> Result<u32, UsageError> {
    if args.len() < 2 {
        Err(UsageError::MissingPid)
    } else {
        match spec_parse_u32(args[1]) {
            Some(pid) => Ok(pid),
            None => Err(UsageError::InvalidPid),
        }
    }
}

impl UsageError {
    /// The diagnostic that reports the error.
    pub fn message(&self) -> (line: String)
        ensures
            line@ == usage_message(*self),
    {
        match self {
            UsageError::MissingPid => "Please provide a process ID (PID) as an argument.".to_owned(),
            UsageError::InvalidPid => "Invalid PID provided.".to_owned(),
        }
    }
}

/// Reads the process identifier from the arguments, the program's name
/// first among them.
pub fn parse_args(args: &[String]) -> (parsed: Result<u32, UsageError>)
    ensures
        parsed == spec_parse_args(args.deep_view()),
{
    if args.len() < 2 {
        Err(UsageError::MissingPid)
    } else {
        match parse_u32(args[1].as_str()) {
            Some(pid) => Ok(pid),
            None => Err(UsageError::InvalidPid),
        }
    }
}

} // verus!
