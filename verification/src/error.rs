//! The errors with which a command ends.

use vstd::prelude::*;
use vstd::string::StringExecFns;

verus! {

/// The kinds of error with which a command ends.
#[derive(Clone, Copy, Debug, PartialEq, Eq, Structural)]
pub enum CliErrorKind {
    Other,
}

impl CliErrorKind {
    /// The code with which the process exits on an error of this kind.
    pub open spec fn spec_exit_code(self) -> i32 {
        match self {
            CliErrorKind::Other => 101,
        }
    }

    /// The code with which the process exits on an error of this kind.
    pub fn exit_code(&self) -> (code: i32)
        ensures
            code == self.spec_exit_code(),
            code != 0,
    {
        match self {
            CliErrorKind::Other => 101,
        }
    }
}

/// An error with which a command ends: its kind, and what to tell the user.
#[derive(Debug)]
pub struct CliError {
    pub kind: CliErrorKind,
    pub description: String,
}

impl CliError {
    /// An error of the kind `Other` with the given description.
    pub fn other(description: String) -> (e: Self)
        ensures
            e.kind == CliErrorKind::Other,
            e.description@ == description@,
    {
        CliError { kind: CliErrorKind::Other, description }
    }

    /// The error for a file that was not found at `path`.
    pub fn file_not_found(path: &str) -> (e: Self)
        ensures
            e.kind == CliErrorKind::Other,
            e.description@ == "File not found: "@ + path@,
    {
        let description = "File not found: ".to_owned().concat(path);
        CliError { kind: CliErrorKind::Other, description }
    }
}

} // verus!
