//! Errors of the command-line application around the node.

use vstd::prelude::*;

verus! {

/// An error from the command-line application.
#[derive(Clone, Copy, Debug, PartialEq, Eq, Structural)]
pub enum AppError {
    /// Something failed for no more specific reason.
    Unknown,
    /// The command is not one the application knows.
    InvalidCommand,
    /// An argument does not fit its command.
    InvalidArgument,
}

impl AppError {
    /// A short description, for reporting to the user.
    pub fn message(&self) -> &'static str {
        match self {
            AppError::Unknown => "unknown error",
            AppError::InvalidCommand => "invalid command",
            AppError::InvalidArgument => "invalid command",
        }
    }
}

} // verus!
