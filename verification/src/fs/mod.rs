//! What the library knows of files, and what it asks of a file system.

pub mod fake_super;
pub mod laws;
pub mod metadata;
pub mod plan;
pub mod sparse;
pub mod unix;
pub mod windows;

pub use metadata::{DirEntry, FileMetadata, MMAP_THRESHOLD, STREAMING_THRESHOLD};
