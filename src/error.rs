//! The failures that every backend reports.

use vstd::prelude::*;

verus! {

/// Why an operation on a handle failed.
#[derive(Debug)]
pub enum FsError {
    /// The named entry is absent where it must be present.
    NotFound,
    /// The named entry exists but is of the other kind.
    WrongKind,
    /// A directory still holds entries and the removal was not recursive.
    NotEmpty,
    /// A seek went past the end of the file.
    OutOfRange,
    /// A failure below the contract (I/O, permission, quota), with its message.
    Backend(String),
}

impl FsError {
    /// The description of each failure.
    pub open spec fn spec_message(self) -> Seq<char> {
        match self {
            FsError::NotFound => "entry does not exist"@,
            FsError::WrongKind => "entry is of the other kind"@,
            FsError::NotEmpty => "directory is not empty"@,
            FsError::OutOfRange => "cannot seek past the end of the file"@,
            FsError::Backend(m) => m@,
        }
    }

    /// A human-readable description of the failure.
    pub fn message(&self) -> (r: String)
        ensures
            r@ == self.spec_message(),
    {
        match self {
            FsError::NotFound => "entry does not exist".to_owned(),
            FsError::WrongKind => "entry is of the other kind".to_owned(),
            FsError::NotEmpty => "directory is not empty".to_owned(),
            FsError::OutOfRange => "cannot seek past the end of the file".to_owned(),
            FsError::Backend(m) => m.clone(),
        }
    }
}

} // verus!
