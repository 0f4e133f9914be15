//! A virtual file store: directory, file and writable-stream handles under one
//! capability contract, and an in-memory backend that realises it.
//!
//! `model` states the contract over a mathematical model of a store, `memory`
//! holds the backend whose operations are proved against it, and `laws` proves
//! what holds across several operations.

pub mod error;
pub mod laws;
pub mod memory;
pub mod model;
pub mod options;

pub use error::FsError;
pub use memory::MemoryFs;
pub use model::{DirectoryEntry, DirectoryHandle, FileHandle, WritableFileStream};
pub use options::{
    CreateWritableOptions, FileSystemRemoveOptions, GetDirectoryHandleOptions,
    GetFileHandleOptions,
};
