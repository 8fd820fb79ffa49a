//! What errors say.
//!
//! Each error type has its text as a spec function and a method that gives it.

use vstd::prelude::*;

use crate::error::{FerrosyncError, FilterError, FsError, ProtocolError, TransportError};
use crate::text::{
    decimal, decimal_string, from_chars, hex_chars, hex_numeral, lossy_string, lossy_text,
    push_chars, push_text, signed_decimal, signed_decimal_string,
};

verus! {

impl ProtocolError {
    /// What the error says.
    pub open spec fn text(&self) -> Seq<char> {
        match *self {
            ProtocolError::UnsupportedVersion { version, min, max } => "unsupported protocol version "@
                + decimal(version as nat)
                + " (supported: "@
                + decimal(min as nat)
                + "..="@
                + decimal(max as nat)
                + ")"@,
            ProtocolError::NegotiationFailed { local, remote } => "protocol version negotiation failed: local="@
                + decimal(local as nat)
                + ", remote="@
                + decimal(remote as nat),
            ProtocolError::InvalidMplexTag { tag } => "invalid multiplex tag 0x"@
                + hex_numeral(tag as nat),
            ProtocolError::FrameTooLarge { size, max } => "multiplex frame too large: "@
                + decimal(size as nat)
                + " bytes (max "@
                + decimal(max as nat)
                + ")"@,
            ProtocolError::UnexpectedMessageType { msg_type } => "unexpected message type: "@
                + decimal(msg_type as nat),
            ProtocolError::InvalidVarint => "invalid varint encoding"@,
            ProtocolError::WireValueOutOfRange { field, value, max } => "wire value out of range: "@
                + field@
                + " = "@
                + signed_decimal(value as int)
                + " (max "@
                + signed_decimal(max as int)
                + ")"@,
            ProtocolError::ChecksumMismatch { expected, actual } => "checksum mismatch: expected "@
                + expected@
                + ", got "@
                + actual@,
            ProtocolError::UnsupportedChecksum { algorithm } => "unsupported checksum algorithm: "@
                + algorithm@,
            ProtocolError::UnsupportedCompression { algorithm } => "unsupported compression algorithm: "@
                + algorithm@,
            ProtocolError::Handshake { message } => "handshake error: "@
                + message@,
            ProtocolError::Io(f) => "protocol I/O error: "@
                + f.message@,
        }
    }

    /// What the error says.
    pub fn message(&self) -> (r: String)
        ensures
            r@ == self.text(),
    {
        let mut out: Vec<char> = Vec::new();
        match self {
            ProtocolError::UnsupportedVersion { version, min, max } => {
                push_text(&mut out, "unsupported protocol version ");
                push_text(&mut out, decimal_string(*version as u64).as_str());
                push_text(&mut out, " (supported: ");
                push_text(&mut out, decimal_string(*min as u64).as_str());
                push_text(&mut out, "..=");
                push_text(&mut out, decimal_string(*max as u64).as_str());
                push_text(&mut out, ")");
            },
            ProtocolError::NegotiationFailed { local, remote } => {
                push_text(&mut out, "protocol version negotiation failed: local=");
                push_text(&mut out, decimal_string(*local as u64).as_str());
                push_text(&mut out, ", remote=");
                push_text(&mut out, decimal_string(*remote as u64).as_str());
            },
            ProtocolError::InvalidMplexTag { tag } => {
                push_text(&mut out, "invalid multiplex tag 0x");
                push_chars(&mut out, hex_chars(*tag).as_slice());
            },
            ProtocolError::FrameTooLarge { size, max } => {
                push_text(&mut out, "multiplex frame too large: ");
                push_text(&mut out, decimal_string(*size as u64).as_str());
                push_text(&mut out, " bytes (max ");
                push_text(&mut out, decimal_string(*max as u64).as_str());
                push_text(&mut out, ")");
            },
            ProtocolError::UnexpectedMessageType { msg_type } => {
                push_text(&mut out, "unexpected message type: ");
                push_text(&mut out, decimal_string(*msg_type as u64).as_str());
            },
            ProtocolError::InvalidVarint => {
                push_text(&mut out, "invalid varint encoding");
            },
            ProtocolError::WireValueOutOfRange { field, value, max } => {
                push_text(&mut out, "wire value out of range: ");
                push_text(&mut out, field);
                push_text(&mut out, " = ");
                push_text(&mut out, signed_decimal_string(*value as i64).as_str());
                push_text(&mut out, " (max ");
                push_text(&mut out, signed_decimal_string(*max as i64).as_str());
                push_text(&mut out, ")");
            },
            ProtocolError::ChecksumMismatch { expected, actual } => {
                push_text(&mut out, "checksum mismatch: expected ");
                push_text(&mut out, expected.as_str());
                push_text(&mut out, ", got ");
                push_text(&mut out, actual.as_str());
            },
            ProtocolError::UnsupportedChecksum { algorithm } => {
                push_text(&mut out, "unsupported checksum algorithm: ");
                push_text(&mut out, algorithm.as_str());
            },
            ProtocolError::UnsupportedCompression { algorithm } => {
                push_text(&mut out, "unsupported compression algorithm: ");
                push_text(&mut out, algorithm.as_str());
            },
            ProtocolError::Handshake { message } => {
                push_text(&mut out, "handshake error: ");
                push_text(&mut out, message.as_str());
            },
            ProtocolError::Io(f) => {
                push_text(&mut out, "protocol I/O error: ");
                push_text(&mut out, f.message.as_str());
            },
        }
        assert(out@ =~= self.text());
        from_chars(out.as_slice())
    }
}

impl TransportError {
    /// What the error says.
    pub open spec fn text(&self) -> Seq<char> {
        match *self {
            TransportError::ConnectionFailed { message } => "connection failed: "@
                + message@,
            TransportError::RemoteExit { code } => "remote process exited with code "@
                + signed_decimal(code as int),
            TransportError::RemoteSignal => "remote process exited with signal"@,
            TransportError::AuthFailed { message } => "authentication failed: "@
                + message@,
            TransportError::ModuleNotFound { module } => "daemon module not found: "@
                + module@,
            TransportError::CommandNotFound { command } => "command not found: "@
                + command@,
            TransportError::HostKeyMismatch { host } => "host key verification failed for "@
                + host@,
            TransportError::HostKeyNotFound { host } => "host key not found for "@
                + host@
                + " (strict mode)"@,
            TransportError::Io(f) => "transport I/O error: "@
                + f.message@,
        }
    }

    /// What the error says.
    pub fn message(&self) -> (r: String)
        ensures
            r@ == self.text(),
    {
        let mut out: Vec<char> = Vec::new();
        match self {
            TransportError::ConnectionFailed { message } => {
                push_text(&mut out, "connection failed: ");
                push_text(&mut out, message.as_str());
            },
            TransportError::RemoteExit { code } => {
                push_text(&mut out, "remote process exited with code ");
                push_text(&mut out, signed_decimal_string(*code as i64).as_str());
            },
            TransportError::RemoteSignal => {
                push_text(&mut out, "remote process exited with signal");
            },
            TransportError::AuthFailed { message } => {
                push_text(&mut out, "authentication failed: ");
                push_text(&mut out, message.as_str());
            },
            TransportError::ModuleNotFound { module } => {
                push_text(&mut out, "daemon module not found: ");
                push_text(&mut out, module.as_str());
            },
            TransportError::CommandNotFound { command } => {
                push_text(&mut out, "command not found: ");
                push_text(&mut out, command.as_str());
            },
            TransportError::HostKeyMismatch { host } => {
                push_text(&mut out, "host key verification failed for ");
                push_text(&mut out, host.as_str());
            },
            TransportError::HostKeyNotFound { host } => {
                push_text(&mut out, "host key not found for ");
                push_text(&mut out, host.as_str());
                push_text(&mut out, " (strict mode)");
            },
            TransportError::Io(f) => {
                push_text(&mut out, "transport I/O error: ");
                push_text(&mut out, f.message.as_str());
            },
        }
        assert(out@ =~= self.text());
        from_chars(out.as_slice())
    }
}

impl FsError {
    /// What the error says.
    pub open spec fn text(&self) -> Seq<char> {
        match *self {
            FsError::NotFound { path } => "path not found: "@
                + lossy_text(path@),
            FsError::PermissionDenied { path } => "permission denied: "@
                + lossy_text(path@),
            FsError::NotADirectory { path } => "not a directory: "@
                + lossy_text(path@),
            FsError::SymlinkLoop { path } => "symlink loop detected: "@
                + lossy_text(path@),
            FsError::PathTraversal { path } => "path outside transfer root: "@
                + lossy_text(path@),
            FsError::UnsupportedFileType { path, file_type } => "unsupported file type at "@
                + lossy_text(path@)
                + ": "@
                + file_type@,
            FsError::Io { path, source } => "filesystem I/O error at "@
                + lossy_text(path@)
                + ": "@
                + source.message@,
        }
    }

    /// What the error says.
    pub fn message(&self) -> (r: String)
        ensures
            r@ == self.text(),
    {
        let mut out: Vec<char> = Vec::new();
        match self {
            FsError::NotFound { path } => {
                push_text(&mut out, "path not found: ");
                push_text(&mut out, lossy_string(path.as_slice()).as_str());
            },
            FsError::PermissionDenied { path } => {
                push_text(&mut out, "permission denied: ");
                push_text(&mut out, lossy_string(path.as_slice()).as_str());
            },
            FsError::NotADirectory { path } => {
                push_text(&mut out, "not a directory: ");
                push_text(&mut out, lossy_string(path.as_slice()).as_str());
            },
            FsError::SymlinkLoop { path } => {
                push_text(&mut out, "symlink loop detected: ");
                push_text(&mut out, lossy_string(path.as_slice()).as_str());
            },
            FsError::PathTraversal { path } => {
                push_text(&mut out, "path outside transfer root: ");
                push_text(&mut out, lossy_string(path.as_slice()).as_str());
            },
            FsError::UnsupportedFileType { path, file_type } => {
                push_text(&mut out, "unsupported file type at ");
                push_text(&mut out, lossy_string(path.as_slice()).as_str());
                push_text(&mut out, ": ");
                push_text(&mut out, file_type.as_str());
            },
            FsError::Io { path, source } => {
                push_text(&mut out, "filesystem I/O error at ");
                push_text(&mut out, lossy_string(path.as_slice()).as_str());
                push_text(&mut out, ": ");
                push_text(&mut out, source.message.as_str());
            },
        }
        assert(out@ =~= self.text());
        from_chars(out.as_slice())
    }
}

impl FilterError {
    /// What the error says.
    pub open spec fn text(&self) -> Seq<char> {
        match *self {
            FilterError::InvalidRule { rule } => "invalid filter rule: "@
                + rule@,
            FilterError::ReadFile { path, source } => "failed to read filter file "@
                + lossy_text(path@)
                + ": "@
                + source.message@,
            FilterError::InvalidPattern { pattern, message } => "invalid glob pattern: "@
                + pattern@
                + ": "@
                + message@,
        }
    }

    /// What the error says.
    pub fn message(&self) -> (r: String)
        ensures
            r@ == self.text(),
    {
        let mut out: Vec<char> = Vec::new();
        match self {
            FilterError::InvalidRule { rule } => {
                push_text(&mut out, "invalid filter rule: ");
                push_text(&mut out, rule.as_str());
            },
            FilterError::ReadFile { path, source } => {
                push_text(&mut out, "failed to read filter file ");
                push_text(&mut out, lossy_string(path.as_slice()).as_str());
                push_text(&mut out, ": ");
                push_text(&mut out, source.message.as_str());
            },
            FilterError::InvalidPattern { pattern, message } => {
                push_text(&mut out, "invalid glob pattern: ");
                push_text(&mut out, pattern.as_str());
                push_text(&mut out, ": ");
                push_text(&mut out, message.as_str());
            },
        }
        assert(out@ =~= self.text());
        from_chars(out.as_slice())
    }
}

impl FerrosyncError {
    /// What the error says: what the error in it says.
    pub open spec fn text(&self) -> Seq<char> {
        match *self {
            FerrosyncError::Protocol(e) => e.text(),
            FerrosyncError::Transport(e) => e.text(),
            FerrosyncError::Fs(e) => e.text(),
            FerrosyncError::Filter(e) => e.text(),
        }
    }

    /// What the error says.
    pub fn message(&self) -> (r: String)
        ensures
            r@ == self.text(),
    {
        match self {
            FerrosyncError::Protocol(e) => e.message(),
            FerrosyncError::Transport(e) => e.message(),
            FerrosyncError::Fs(e) => e.message(),
            FerrosyncError::Filter(e) => e.message(),
        }
    }
}

} // verus!
