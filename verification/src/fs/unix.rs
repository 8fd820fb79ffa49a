//! Unix file systems.

use vstd::prelude::*;

use crate::error::{FsError, FsErrorView, IoErrorKind, IoFailure, IoFailureView};
use crate::filelist::entry::copy_bytes;

verus! {

/// The error for a failed operation on a path.
pub open spec fn io_error(path: Seq<u8>, e: IoFailureView) -> FsErrorView {
    match e.kind {
        IoErrorKind::NotFound => FsErrorView::NotFound { path },
        IoErrorKind::PermissionDenied => FsErrorView::PermissionDenied { path },
        _ => FsErrorView::Io { path, source: e },
    }
}

/// Standard Unix filesystem.
#[derive(Debug, Default)]
pub struct UnixFileSystem;

impl UnixFileSystem {
    pub fn new() -> (r: UnixFileSystem)
        ensures
            r == UnixFileSystem,
    {
        UnixFileSystem
    }

    /// The error for a failed operation on a path.
    pub fn map_io_err(path: &[u8], e: IoFailure) -> (r: FsError)
        ensures
            r@ == io_error(path@, e@),
    {
        match e.kind {
            IoErrorKind::NotFound => FsError::NotFound { path: copy_bytes(path) },
            IoErrorKind::PermissionDenied => FsError::PermissionDenied { path: copy_bytes(path) },
            _ => FsError::Io { path: copy_bytes(path), source: e },
        }
    }
}

} // verus!
