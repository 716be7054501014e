//! The ways in which a command is turned away.

use vstd::prelude::*;

verus! {

/// Why a command was turned away. Each is reported to the user who sent the
/// command and leaves every session as it was.
#[derive(Clone, Copy, Debug, PartialEq, Eq, Structural)]
pub enum SessionError {
    /// The session already holds more than the allowed number of references.
    CapacityExceeded,
    /// The reference to another message is malformed, or the message it
    /// names could not be had.
    InvalidReference,
    /// The command asks for the state the session is already in:
    /// `listening` tells which one.
    RedundantStateTransition { listening: bool },
}

impl SessionError {
    /// The words in which the error is reported.
    pub open spec fn message(self) -> Seq<char> {
        match self {
            SessionError::CapacityExceeded =>
                "Reached max stored images. please issue !end to end current session"@,
            SessionError::InvalidReference => "Invalid message reference"@,
            SessionError::RedundantStateTransition { listening } => if listening {
                "Already listening"@
            } else {
                "Wasn't listening anyway"@
            },
        }
    }

    /// Writes the report of the error.
    pub fn text(&self) -> (text: String)
        ensures
            text@ == self.message(),
    {
        match self {
            SessionError::CapacityExceeded => String::from_str(
                "Reached max stored images. please issue !end to end current session",
            ),
            SessionError::InvalidReference => String::from_str("Invalid message reference"),
            SessionError::RedundantStateTransition { listening } => if *listening {
                String::from_str("Already listening")
            } else {
                String::from_str("Wasn't listening anyway")
            },
        }
    }
}

} // verus!
