//! The failures a session command can report.

use vstd::prelude::*;

verus! {

/// Why a command against the registry failed.
#[derive(Debug, PartialEq, Eq)]
pub enum SessionError {
    /// The index names no session of the registry.
    InvalidIndex,
    /// The operating system could not create a pseudo-terminal pair.
    AllocationFailed,
    /// The operating system could not start the shell; holds its message.
    SpawnFailed(String),
    /// Reading from or writing to the master side failed.
    IOFailed,
    /// The filled bytes are not valid UTF-8.
    DecodeFailed,
    /// The operating system refused the new geometry.
    ResizeFailed,
}

impl SessionError {
    /// The operating system's message, for the one failure that keeps it.
    pub open spec fn detail(self) -> Seq<char> {
        match self {
            SessionError::SpawnFailed(message) => message@,
            _ => Seq::empty(),
        }
    }

    /// The text of the operating system's message; empty for every failure
    /// but `SpawnFailed`.
    pub fn message(&self) -> (text: String)
        ensures
            text@ == self.detail(),
    {
        match self {
            SessionError::SpawnFailed(message) => message.clone(),
            _ => String::new(),
        }
    }
}

} // verus!
