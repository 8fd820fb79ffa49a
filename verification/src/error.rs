//! Error types of every layer.
//!
//! Each error type has a view in which texts are character sequences and
//! paths are byte sequences, so that contracts can say exactly which error a
//! function returns.

use vstd::prelude::*;

verus! {

// ---------------------------------------------------------------------------
// Input and output failures
// ---------------------------------------------------------------------------

/// What kind of input or output operation failed.
#[derive(Debug, Clone, Copy, PartialEq, Eq, Structural)]
pub enum IoErrorKind {
    /// The path does not exist.
    NotFound,
    /// The operation is not permitted.
    PermissionDenied,
    /// The stream ended inside a value.
    UnexpectedEof,
    /// An argument was rejected by the system.
    InvalidInput,
    /// Stored data does not have the expected form.
    InvalidData,
    /// The operation took longer than it was given.
    TimedOut,
    /// Any other failure.
    Other,
}

/// A failed input or output operation.
#[derive(Debug)]
pub struct IoFailure {
    /// What kind of failure it was.
    pub kind: IoErrorKind,
    /// The system's or the library's words for it.
    pub message: String,
}

/// The view of an [`IoFailure`].
#[verifier::ext_equal]
pub struct IoFailureView {
    pub kind: IoErrorKind,
    pub message: Seq<char>,
}

impl View for IoFailure {
    type V = IoFailureView;

    open spec fn view(&self) -> IoFailureView {
        IoFailureView { kind: self.kind, message: self.message@ }
    }
}

impl IoFailure {
    /// A failure of the given kind with the given words.
    pub fn new(kind: IoErrorKind, message: &str) -> (r: IoFailure)
        ensures
            r@ == (IoFailureView { kind, message: message@ }),
    {
        IoFailure { kind, message: message.to_owned() }
    }
}

impl Clone for IoFailure {
    fn clone(&self) -> (r: IoFailure)
        ensures
            r@ == self@,
    {
        IoFailure { kind: self.kind, message: self.message.clone() }
    }
}

// ---------------------------------------------------------------------------
// Protocol errors
// ---------------------------------------------------------------------------

/// Errors originating from rsync wire-protocol encoding and decoding.
#[derive(Debug, Clone)]
#[allow(inconsistent_fields)]
pub enum ProtocolError {
    UnsupportedVersion { version: u8, min: u8, max: u8 },
    NegotiationFailed { local: u8, remote: u8 },
    InvalidMplexTag { tag: u32 },
    FrameTooLarge { size: u32, max: u32 },
    UnexpectedMessageType { msg_type: u8 },
    InvalidVarint,
    WireValueOutOfRange { field: &'static str, value: i64, max: i64 },
    ChecksumMismatch { expected: String, actual: String },
    UnsupportedChecksum { algorithm: String },
    UnsupportedCompression { algorithm: String },
    Handshake { message: String },
    Io(IoFailure),
}

/// The view of a [`ProtocolError`].
#[verifier::ext_equal]
#[allow(inconsistent_fields)]
pub enum ProtocolErrorView {
    UnsupportedVersion { version: u8, min: u8, max: u8 },
    NegotiationFailed { local: u8, remote: u8 },
    InvalidMplexTag { tag: u32 },
    FrameTooLarge { size: u32, max: u32 },
    UnexpectedMessageType { msg_type: u8 },
    InvalidVarint,
    WireValueOutOfRange { field: Seq<char>, value: i64, max: i64 },
    ChecksumMismatch { expected: Seq<char>, actual: Seq<char> },
    UnsupportedChecksum { algorithm: Seq<char> },
    UnsupportedCompression { algorithm: Seq<char> },
    Handshake { message: Seq<char> },
    Io(IoFailureView),
}

impl View for ProtocolError {
    type V = ProtocolErrorView;

    open spec fn view(&self) -> ProtocolErrorView {
        match *self {
            ProtocolError::UnsupportedVersion { version, min, max } =>
                ProtocolErrorView::UnsupportedVersion { version, min, max },
            ProtocolError::NegotiationFailed { local, remote } =>
                ProtocolErrorView::NegotiationFailed { local, remote },
            ProtocolError::InvalidMplexTag { tag } => ProtocolErrorView::InvalidMplexTag { tag },
            ProtocolError::FrameTooLarge { size, max } =>
                ProtocolErrorView::FrameTooLarge { size, max },
            ProtocolError::UnexpectedMessageType { msg_type } =>
                ProtocolErrorView::UnexpectedMessageType { msg_type },
            ProtocolError::InvalidVarint => ProtocolErrorView::InvalidVarint,
            ProtocolError::WireValueOutOfRange { field, value, max } =>
                ProtocolErrorView::WireValueOutOfRange { field: field@, value, max },
            ProtocolError::ChecksumMismatch { expected, actual } =>
                ProtocolErrorView::ChecksumMismatch { expected: expected@, actual: actual@ },
            ProtocolError::UnsupportedChecksum { algorithm } =>
                ProtocolErrorView::UnsupportedChecksum { algorithm: algorithm@ },
            ProtocolError::UnsupportedCompression { algorithm } =>
                ProtocolErrorView::UnsupportedCompression { algorithm: algorithm@ },
            ProtocolError::Handshake { message } =>
                ProtocolErrorView::Handshake { message: message@ },
            ProtocolError::Io(failure) => ProtocolErrorView::Io(failure@),
        }
    }
}

/// The error of a stream that ends inside a value.
pub open spec fn eof_error() -> ProtocolErrorView {
    ProtocolErrorView::Io(
        IoFailureView { kind: IoErrorKind::UnexpectedEof, message: "early eof"@ },
    )
}

/// Makes the error of a stream that ends inside a value.
pub fn make_eof() -> (r: ProtocolError)
    ensures
        r@ == eof_error(),
{
    ProtocolError::Io(IoFailure::new(IoErrorKind::UnexpectedEof, "early eof"))
}

// ---------------------------------------------------------------------------
// Transport errors
// ---------------------------------------------------------------------------

/// Errors from the transport layer (local subprocess, SSH, daemon).
#[derive(Debug, Clone)]
pub enum TransportError {
    ConnectionFailed { message: String },
    RemoteExit { code: i32 },
    RemoteSignal,
    AuthFailed { message: String },
    ModuleNotFound { module: String },
    CommandNotFound { command: String },
    HostKeyMismatch { host: String },
    HostKeyNotFound { host: String },
    Io(IoFailure),
}

// ---------------------------------------------------------------------------
// Filesystem errors
// ---------------------------------------------------------------------------

/// Errors from filesystem operations. Paths are byte strings.
#[derive(Debug)]
pub enum FsError {
    NotFound { path: Vec<u8> },
    PermissionDenied { path: Vec<u8> },
    NotADirectory { path: Vec<u8> },
    SymlinkLoop { path: Vec<u8> },
    PathTraversal { path: Vec<u8> },
    UnsupportedFileType { path: Vec<u8>, file_type: String },
    Io { path: Vec<u8>, source: IoFailure },
}

/// The view of an [`FsError`].
#[verifier::ext_equal]
pub enum FsErrorView {
    NotFound { path: Seq<u8> },
    PermissionDenied { path: Seq<u8> },
    NotADirectory { path: Seq<u8> },
    SymlinkLoop { path: Seq<u8> },
    PathTraversal { path: Seq<u8> },
    UnsupportedFileType { path: Seq<u8>, file_type: Seq<char> },
    Io { path: Seq<u8>, source: IoFailureView },
}

impl View for FsError {
    type V = FsErrorView;

    open spec fn view(&self) -> FsErrorView {
        match *self {
            FsError::NotFound { path } => FsErrorView::NotFound { path: path@ },
            FsError::PermissionDenied { path } => FsErrorView::PermissionDenied { path: path@ },
            FsError::NotADirectory { path } => FsErrorView::NotADirectory { path: path@ },
            FsError::SymlinkLoop { path } => FsErrorView::SymlinkLoop { path: path@ },
            FsError::PathTraversal { path } => FsErrorView::PathTraversal { path: path@ },
            FsError::UnsupportedFileType { path, file_type } =>
                FsErrorView::UnsupportedFileType { path: path@, file_type: file_type@ },
            FsError::Io { path, source } => FsErrorView::Io { path: path@, source: source@ },
        }
    }
}

// ---------------------------------------------------------------------------
// Filter errors
// ---------------------------------------------------------------------------

/// Errors from filter, exclude and include rule processing.
#[derive(Debug, Clone)]
pub enum FilterError {
    InvalidRule { rule: String },
    ReadFile { path: Vec<u8>, source: IoFailure },
    InvalidPattern { pattern: String, message: String },
}

/// The view of a [`FilterError`].
#[verifier::ext_equal]
pub enum FilterErrorView {
    InvalidRule { rule: Seq<char> },
    ReadFile { path: Seq<u8>, source: IoFailureView },
    InvalidPattern { pattern: Seq<char>, message: Seq<char> },
}

impl View for FilterError {
    type V = FilterErrorView;

    open spec fn view(&self) -> FilterErrorView {
        match *self {
            FilterError::InvalidRule { rule } => FilterErrorView::InvalidRule { rule: rule@ },
            FilterError::ReadFile { path, source } =>
                FilterErrorView::ReadFile { path: path@, source: source@ },
            FilterError::InvalidPattern { pattern, message } =>
                FilterErrorView::InvalidPattern { pattern: pattern@, message: message@ },
        }
    }
}

// ---------------------------------------------------------------------------
// Top-level error
// ---------------------------------------------------------------------------

/// Top-level error type composing all subsystem errors.
#[derive(Debug, Clone)]
pub enum FerrosyncError {
    Protocol(ProtocolError),
    Transport(TransportError),
    Fs(FsError),
    Filter(FilterError),
}

impl From<ProtocolError> for FerrosyncError {
    fn from(e: ProtocolError) -> (r: Self) {
        FerrosyncError::Protocol(e)
    }
}

impl vstd::std_specs::convert::FromSpecImpl<ProtocolError> for FerrosyncError {
    open spec fn obeys_from_spec() -> bool {
        true
    }

    open spec fn from_spec(e: ProtocolError) -> Self {
        FerrosyncError::Protocol(e)
    }
}

impl From<TransportError> for FerrosyncError {
    fn from(e: TransportError) -> (r: Self) {
        FerrosyncError::Transport(e)
    }
}

impl vstd::std_specs::convert::FromSpecImpl<TransportError> for FerrosyncError {
    open spec fn obeys_from_spec() -> bool {
        true
    }

    open spec fn from_spec(e: TransportError) -> Self {
        FerrosyncError::Transport(e)
    }
}

impl From<FsError> for FerrosyncError {
    fn from(e: FsError) -> (r: Self) {
        FerrosyncError::Fs(e)
    }
}

impl vstd::std_specs::convert::FromSpecImpl<FsError> for FerrosyncError {
    open spec fn obeys_from_spec() -> bool {
        true
    }

    open spec fn from_spec(e: FsError) -> Self {
        FerrosyncError::Fs(e)
    }
}

impl From<FilterError> for FerrosyncError {
    fn from(e: FilterError) -> (r: Self) {
        FerrosyncError::Filter(e)
    }
}

impl vstd::std_specs::convert::FromSpecImpl<FilterError> for FerrosyncError {
    open spec fn obeys_from_spec() -> bool {
        true
    }

    open spec fn from_spec(e: FilterError) -> Self {
        FerrosyncError::Filter(e)
    }
}

impl From<IoFailure> for ProtocolError {
    fn from(e: IoFailure) -> (r: Self) {
        ProtocolError::Io(e)
    }
}

impl vstd::std_specs::convert::FromSpecImpl<IoFailure> for ProtocolError {
    open spec fn obeys_from_spec() -> bool {
        true
    }

    open spec fn from_spec(e: IoFailure) -> Self {
        ProtocolError::Io(e)
    }
}

impl From<IoFailure> for TransportError {
    fn from(e: IoFailure) -> (r: Self) {
        TransportError::Io(e)
    }
}

impl vstd::std_specs::convert::FromSpecImpl<IoFailure> for TransportError {
    open spec fn obeys_from_spec() -> bool {
        true
    }

    open spec fn from_spec(e: IoFailure) -> Self {
        TransportError::Io(e)
    }
}

impl Clone for FsError {
    fn clone(&self) -> (r: FsError)
        ensures
            r@ == self@,
    {
        match self {
            FsError::NotFound { path } => FsError::NotFound {
                path: vstd::slice::slice_to_vec(path.as_slice()),
            },
            FsError::PermissionDenied { path } => FsError::PermissionDenied {
                path: vstd::slice::slice_to_vec(path.as_slice()),
            },
            FsError::NotADirectory { path } => FsError::NotADirectory {
                path: vstd::slice::slice_to_vec(path.as_slice()),
            },
            FsError::SymlinkLoop { path } => FsError::SymlinkLoop {
                path: vstd::slice::slice_to_vec(path.as_slice()),
            },
            FsError::PathTraversal { path } => FsError::PathTraversal {
                path: vstd::slice::slice_to_vec(path.as_slice()),
            },
            FsError::UnsupportedFileType { path, file_type } => FsError::UnsupportedFileType {
                path: vstd::slice::slice_to_vec(path.as_slice()),
                file_type: file_type.clone(),
            },
            FsError::Io { path, source } => FsError::Io {
                path: vstd::slice::slice_to_vec(path.as_slice()),
                source: source.clone(),
            },
        }
    }
}

} // verus!
