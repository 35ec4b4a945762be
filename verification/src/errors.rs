//! The ways in which a file can fail to be counted.

use vstd::prelude::*;

verus! {

/// Why a file was not counted.
#[derive(Debug)]
pub enum ProcessFileError {
    /// Reading or decoding failed; holds the description of the failure.
    IoError(String),
    /// The path does not name a regular file; holds the path.
    FileNotFound(String),
}

/// The mathematical value of a `ProcessFileError`.
pub enum Failure {
    IoError(Seq<char>),
    FileNotFound(Seq<char>),
}

impl Failure {
    /// The description of the error: what kind it is, and the failure's own
    /// description or the path.
    pub open spec fn message(self) -> Seq<char> {
        match self {
            Failure::IoError(description) => "I/O error: "@ + description,
            Failure::FileNotFound(path) => "File not found: "@ + path,
        }
    }

    /// What is reported to the user when the file is skipped.
    pub open spec fn report(self) -> Seq<char> {
        match self {
            Failure::IoError(description) => "Error reading file: "@ + description,
            Failure::FileNotFound(path) => path + ": open: No such file"@,
        }
    }
}

impl View for ProcessFileError {
    type V = Failure;

    open spec fn view(&self) -> Failure {
        match self {
            ProcessFileError::IoError(description) => Failure::IoError(description@),
            ProcessFileError::FileNotFound(path) => Failure::FileNotFound(path@),
        }
    }
}

impl ProcessFileError {
    /// The description of the error.
    pub fn message(&self) -> (text: String)
        ensures
            text@ == self@.message(),
    {
        match self {
            ProcessFileError::IoError(description) => {
                "I/O error: ".to_owned().concat(description.as_str())
            },
            ProcessFileError::FileNotFound(path) => {
                "File not found: ".to_owned().concat(path.as_str())
            },
        }
    }

    /// What is reported to the user when the file is skipped.
    pub fn report(&self) -> (text: String)
        ensures
            text@ == self@.report(),
    {
        match self {
            ProcessFileError::IoError(description) => {
                "Error reading file: ".to_owned().concat(description.as_str())
            },
            ProcessFileError::FileNotFound(path) => {
                path.clone().concat(": open: No such file")
            },
        }
    }
}

} // verus!
