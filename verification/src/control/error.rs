//! Errors of the control loop.

use crate::control::fault::IoFault;
use crate::control::text::joined;
use std::num::{ParseFloatError, ParseIntError};
use vstd::prelude::*;

verus! {

/// `std::num::ParseIntError`, carried as it is.
#[verifier::external_type_specification]
#[verifier::external_body]
pub struct ExParseIntError(std::num::ParseIntError);

/// `std::num::ParseFloatError`, carried as it is.
#[verifier::external_type_specification]
#[verifier::external_body]
pub struct ExParseFloatError(std::num::ParseFloatError);

#[derive(Debug)]
pub enum ControlError {
    InvalidArguments(&'static str),
    InvalidPid(ParseIntError),
    InvalidThrottle(ParseFloatError),
    ActiveTargetAlreadySet,
    ResumeFailed(IoFault),
}

impl ControlError {
    /// Whether `text` is how the error reads.
    pub open spec fn reads(&self, text: Seq<char>) -> bool {
        match *self {
            ControlError::InvalidArguments(message) => text == message@,
            ControlError::InvalidPid(error) => exists|shown: String| #[trigger]
                vstd::string::to_string_from_display_ensures(&error, shown) && text == "invalid pid: "@ + shown@,
            ControlError::InvalidThrottle(error) => exists|shown: String| #[trigger]
                vstd::string::to_string_from_display_ensures(&error, shown) && text
                    == "invalid throttle percentage: "@ + shown@,
            ControlError::ActiveTargetAlreadySet => text == "control loop is already active"@,
            ControlError::ResumeFailed(fault) => text == "failed to resume target process group: "@
                + fault.message@,
        }
    }

    pub fn message(&self) -> (message: String)
        ensures
            self.reads(message@),
    {
        match self {
            ControlError::InvalidArguments(message) => String::from_str(message),
            ControlError::InvalidPid(error) => joined("invalid pid: ", error.to_string().as_str()),
            ControlError::InvalidThrottle(error) => joined(
                "invalid throttle percentage: ",
                error.to_string().as_str(),
            ),
            ControlError::ActiveTargetAlreadySet => String::from_str(
                "control loop is already active",
            ),
            ControlError::ResumeFailed(fault) => joined(
                "failed to resume target process group: ",
                fault.message.as_str(),
            ),
        }
    }
}

} // verus!
