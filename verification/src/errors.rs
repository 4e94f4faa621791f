//! The error kinds a pack acquisition can end with.

use vstd::prelude::*;

verus! {

/// One typed error per failure class of the engine. The carried strings are
/// the human-readable details the surrounding layer prints.
#[derive(Clone, Debug, PartialEq, Eq)]
pub enum PackError {
    /// The request, connection or response status failed.
    Network(String),
    /// A response body could not be decoded as expected.
    Decode(String),
    /// The computed digest differs from a non-empty expected digest.
    HashMismatch { expected: String, found: String },
    /// Directory or file creation, or a write, failed.
    Io(String),
    /// An archive entry's stored path holds a component that is neither a
    /// plain name nor a current-directory marker.
    InvalidArchiveEntry(String),
    /// Any other archive-processing failure.
    Extraction(String),
}

impl PackError {
    /// The message a caller shows for this error.
    pub open spec fn spec_message(&self) -> Seq<char> {
        match self {
            PackError::Network(m) => m@,
            PackError::Decode(m) => m@,
            PackError::HashMismatch { expected, found } => "Mismatched hashes, expected: "@
                + expected@ + " found: "@ + found@,
            PackError::Io(m) => m@,
            PackError::InvalidArchiveEntry(m) => "Invalid component: "@ + m@,
            PackError::Extraction(m) => m@,
        }
    }

    pub fn message(&self) -> (r: String)
        ensures
            r@ == self.spec_message(),
    {
        match self {
            PackError::Network(m) => m.clone(),
            PackError::Decode(m) => m.clone(),
            PackError::HashMismatch { expected, found } => {
                let mut s = String::new();
                s.append("Mismatched hashes, expected: ");
                s.append(expected.as_str());
                s.append(" found: ");
                s.append(found.as_str());
                s
            },
            PackError::Io(m) => m.clone(),
            PackError::InvalidArchiveEntry(m) => {
                let mut s = String::new();
                s.append("Invalid component: ");
                s.append(m.as_str());
                s
            },
            PackError::Extraction(m) => m.clone(),
        }
    }
}

} // verus!
