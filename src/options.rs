//! Option records passed to the handle operations.

use vstd::prelude::*;

verus! {

/// Whether a missing file is created on lookup.
pub struct GetFileHandleOptions {
    pub create: bool,
}

impl Default for GetFileHandleOptions {
    fn default() -> (r: Self)
        ensures
            !r.create,
    {
        GetFileHandleOptions { create: false }
    }
}

/// Whether a missing directory is created on lookup.
pub struct GetDirectoryHandleOptions {
    pub create: bool,
}

impl Default for GetDirectoryHandleOptions {
    fn default() -> (r: Self)
        ensures
            !r.create,
    {
        GetDirectoryHandleOptions { create: false }
    }
}

/// Whether a new writable stream keeps the file's current content.
pub struct CreateWritableOptions {
    pub keep_existing_data: bool,
}

impl Default for CreateWritableOptions {
    fn default() -> (r: Self)
        ensures
            !r.keep_existing_data,
    {
        CreateWritableOptions { keep_existing_data: false }
    }
}

/// Whether removing a directory also removes what it holds.
pub struct FileSystemRemoveOptions {
    pub recursive: bool,
}

impl Default for FileSystemRemoveOptions {
    fn default() -> (r: Self)
        ensures
            !r.recursive,
    {
        FileSystemRemoveOptions { recursive: false }
    }
}

} // verus!
