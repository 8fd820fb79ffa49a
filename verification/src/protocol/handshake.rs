//! Parameters that both sides of a session agree on.

use vstd::prelude::*;

use crate::text::from_chars;

verus! {

// ---------------------------------------------------------------------------
// Compatibility flags
// ---------------------------------------------------------------------------

/// Both sides exchange the file list directory by directory.
pub const INC_RECURSE: u32 = 0x1;

/// The file list may end with an error code.
pub const SAFE_FLIST: u32 = 0x8;

/// Entry flags are sent as varints.
pub const VARINT_FLIST_FLAGS: u32 = 0x80;

/// Names of user and group 0 are sent.
pub const ID0_NAMES: u32 = 0x100;

// ---------------------------------------------------------------------------
// Algorithms
// ---------------------------------------------------------------------------

/// The checksum of files and blocks.
#[derive(Debug, Clone, Copy, PartialEq, Eq, Structural)]
pub enum ChecksumType {
    Absent,
    Md4,
    Md5,
}

impl ChecksumType {
    /// The length of a digest in bytes.
    pub open spec fn spec_digest_len(self) -> usize {
        match self {
            ChecksumType::Absent => 0,
            _ => 16,
        }
    }

    /// The length of a digest in bytes.
    pub fn digest_len(&self) -> (r: usize)
        ensures
            r == self.spec_digest_len(),
    {
        match self {
            ChecksumType::Absent => 0,
            _ => 16,
        }
    }
}

/// What a session has negotiated.
#[derive(Debug, Clone, Copy, PartialEq, Eq, Structural)]
pub struct NegotiatedProtocol {
    /// The protocol version.
    pub version: u8,
    /// The compatibility flags that both sides have.
    pub compat_flags: u32,
    /// The checksum in use.
    pub checksum: ChecksumType,
    /// The seed of the checksums.
    pub seed: i32,
}

impl NegotiatedProtocol {
    /// Whether entry flags are sent as varints.
    pub open spec fn varint_flags(self) -> bool {
        self.version >= 30 && self.compat_flags & VARINT_FLIST_FLAGS != 0
    }

    /// Whether file lists are exchanged directory by directory.
    pub open spec fn incremental(self) -> bool {
        self.version >= 30 && self.compat_flags & INC_RECURSE != 0
    }

    /// Whether names of user and group 0 are sent.
    pub open spec fn id0_names(self) -> bool {
        self.compat_flags & ID0_NAMES != 0
    }

    /// Whether entry flags are sent as varints.
    pub fn varint_flist_flags(&self) -> (r: bool)
        ensures
            r == self.varint_flags(),
    {
        self.version >= 30 && self.compat_flags & VARINT_FLIST_FLAGS != 0
    }

    /// Whether file lists are exchanged directory by directory.
    pub fn supports_incremental_flist(&self) -> (r: bool)
        ensures
            r == self.incremental(),
    {
        self.version >= 30 && self.compat_flags & INC_RECURSE != 0
    }
}

// ---------------------------------------------------------------------------
// Capabilities
// ---------------------------------------------------------------------------

/// The capability string: a dot, then a letter for each capability.
pub open spec fn capabilities(inc_recurse: bool, symlink_times: bool, iconv: bool) -> Seq<char> {
    seq!['.'] + (if inc_recurse {
        seq!['i']
    } else {
        Seq::empty()
    }) + (if symlink_times {
        seq!['L']
    } else {
        Seq::empty()
    }) + (if iconv {
        seq!['s']
    } else {
        Seq::empty()
    }) + seq!['f', 'x', 'C', 'I', 'v', 'u']
}

/// The capability string that the client advertises.
pub fn build_capability_string(inc_recurse: bool, symlink_times: bool, iconv: bool) -> (r: String)
    ensures
        r@ == capabilities(inc_recurse, symlink_times, iconv),
{
    let mut out: Vec<char> = Vec::new();
    out.push('.');
    if inc_recurse {
        out.push('i');
    }
    if symlink_times {
        out.push('L');
    }
    if iconv {
        out.push('s');
    }
    out.push('f');
    out.push('x');
    out.push('C');
    out.push('I');
    out.push('v');
    out.push('u');
    assert(out@ =~= capabilities(inc_recurse, symlink_times, iconv));
    from_chars(out.as_slice())
}

} // verus!
