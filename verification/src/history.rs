//! Failures around the prompt-history file. Locating and creating the
//! file is filesystem work done outside the library; its failures are
//! reported through this type.

use vstd::prelude::*;

verus! {

/// A failure while locating or creating the history file.
#[derive(Debug)]
pub enum HistoryError {
    /// Creating the history file failed, with the failure's detail.
    Create(String),
    /// No cache directory could be found to hold the history file.
    NoCacheDir,
}

impl HistoryError {
    /// A user-readable description of this failure.
    pub fn message(&self) -> (text: String)
        ensures
            text@ == match *self {
                HistoryError::Create(_) => "Failed to create history file."@,
                HistoryError::NoCacheDir => "Failed to find cache directory for history."@,
            },
    {
        match self {
            Self::Create(_) => String::from_str("Failed to create history file."),
            Self::NoCacheDir => String::from_str("Failed to find cache directory for history."),
        }
    }
}

} // verus!
