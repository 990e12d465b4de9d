//! The one error type of the library.

use vstd::prelude::*;
use vstd::string::StringExecFns;

verus! {

/// What can go wrong, each kind with a message for the reader.
#[derive(Debug)]
pub enum ChromashError {
    /// The file system refused something.
    Io(String),
    /// Data could not be decoded: a stored record, or an image.
    Json(String),
    /// An outside program ended in failure; the message is what it wrote.
    Process(String),
    /// A wallpaper, a preset or a file is missing.
    NotFound(String),
    /// Anything else.
    General(String),
}

impl ChromashError {
    /// The detail that the error carries.
    pub open spec fn detail(self) -> Seq<char> {
        match self {
            ChromashError::Io(m) => m@,
            ChromashError::Json(m) => m@,
            ChromashError::Process(m) => m@,
            ChromashError::NotFound(m) => m@,
            ChromashError::General(m) => m@,
        }
    }

    /// The words that introduce each kind of error.
    pub open spec fn heading(self) -> Seq<char> {
        match self {
            ChromashError::Io(_) => "IO error: "@,
            ChromashError::Json(_) => "JSON error: "@,
            ChromashError::Process(_) => "Process failed: "@,
            ChromashError::NotFound(_) => "Not found: "@,
            ChromashError::General(_) => "Error: "@,
        }
    }

    /// The error as one line of text: the heading of its kind, then its detail.
    pub fn message(&self) -> (text: String)
        ensures
            text@ == self.heading() + self.detail(),
    {
        match self {
            ChromashError::Io(m) => String::from_str("IO error: ").concat(m.as_str()),
            ChromashError::Json(m) => String::from_str("JSON error: ").concat(m.as_str()),
            ChromashError::Process(m) => String::from_str("Process failed: ").concat(m.as_str()),
            ChromashError::NotFound(m) => String::from_str("Not found: ").concat(m.as_str()),
            ChromashError::General(m) => String::from_str("Error: ").concat(m.as_str()),
        }
    }
}

} // verus!
