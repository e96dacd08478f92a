//! Command compilation and frame codec for a galvanometer-scanner controller.
//!
//! A scanner command is turned into fixed-size binary frames; numbers are
//! carried as IEEE-754 bit patterns and every encoding rule is stated over
//! integers and proved.

use vstd::prelude::*;
use vstd::string::*;

pub mod codec;
pub mod commands;
pub mod ieee;
pub mod parsing;
pub mod text;
pub mod wire;

pub use crate::commands::TgtStatus;
pub use crate::commands::CMD3G;
pub use crate::parsing::RhothorCommand;

verus! {

/// What can go wrong between a script line and a decoded status reply.
#[derive(Debug, Clone, Copy, PartialEq, Eq, Structural)]
pub enum AppError {
    /// A script line is not a well-formed call of a known command.
    ParseError,
    /// The script could not be read.
    FileError,
    /// A status reply is shorter than the fixed record.
    DecodeError,
    /// The command has no frame encoding yet.
    UnsupportedCommandError,
}

impl AppError {
    /// The words that describe the error.
    pub open spec fn spec_message(self) -> Seq<char> {
        match self {
            AppError::ParseError => "Parse Error"@,
            AppError::FileError => "File Error"@,
            AppError::DecodeError => "Decode Error"@,
            AppError::UnsupportedCommandError => "Unsupported Command Error"@,
        }
    }

    /// The words that describe the error.
    pub fn message(&self) -> (text: String)
        ensures
            text@ == self.spec_message(),
    {
        match self {
            AppError::ParseError => String::from_str("Parse Error"),
            AppError::FileError => String::from_str("File Error"),
            AppError::DecodeError => String::from_str("Decode Error"),
            AppError::UnsupportedCommandError => String::from_str("Unsupported Command Error"),
        }
    }
}

} // verus!
