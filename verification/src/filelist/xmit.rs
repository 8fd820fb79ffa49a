//! Transmission flags of the file list wire format.
//!
//! Each file entry is sent with flags that say which of its fields are the
//! same as in the entry before, and which optional fields follow.

use vstd::prelude::*;

verus! {

/// Entry is a top-level directory.
pub const XMIT_TOP_DIR: u32 = 0x1;

/// File mode unchanged from previous entry.
pub const XMIT_SAME_MODE: u32 = 0x2;

/// (Proto < 28) rdev same as previous entry.
pub const XMIT_SAME_RDEV_PRE28: u32 = 0x4;

/// (Proto >= 28) A second flag byte follows.
pub const XMIT_EXTENDED_FLAGS: u32 = 0x4;

/// UID unchanged from previous entry.
pub const XMIT_SAME_UID: u32 = 0x8;

/// GID unchanged from previous entry.
pub const XMIT_SAME_GID: u32 = 0x10;

/// Filename shares a prefix with the previous entry.
pub const XMIT_SAME_NAME: u32 = 0x20;

/// Filename suffix length > 255 (sent as an integer instead of a byte).
pub const XMIT_LONG_NAME: u32 = 0x40;

/// Modification time unchanged from previous entry.
pub const XMIT_SAME_TIME: u32 = 0x80;

/// (Proto >= 28) rdev major unchanged from previous entry.
pub const XMIT_SAME_RDEV_MAJOR: u32 = 0x100;

/// (Proto >= 30) Directory with no content to transfer.
pub const XMIT_NO_CONTENT_DIR: u32 = 0x100;

/// Entry is a hard link.
pub const XMIT_HLINKED: u32 = 0x200;

/// (Proto < 30) Hard link device same as previous.
pub const XMIT_SAME_DEV_PRE30: u32 = 0x400;

/// (Proto >= 30) Username string follows uid.
pub const XMIT_USER_NAME_FOLLOWS: u32 = 0x400;

/// (Proto < 30) rdev minor fits in 1 byte.
pub const XMIT_RDEV_MINOR_8_PRE30: u32 = 0x800;

/// (Proto >= 30) Group name string follows gid.
pub const XMIT_GROUP_NAME_FOLLOWS: u32 = 0x800;

/// First occurrence of a hard link group.
pub const XMIT_HLINK_FIRST: u32 = 0x1000;

/// End-of-list marker with io_error.
pub const XMIT_IO_ERROR_ENDLIST: u32 = 0x1000;

/// (Proto >= 31) Nanosecond modification time follows.
pub const XMIT_MOD_NSEC: u32 = 0x2000;

/// Access time unchanged from previous entry.
pub const XMIT_SAME_ATIME: u32 = 0x4000;

/// Creation time equals mtime (not sent separately).
pub const XMIT_CRTIME_EQ_MTIME: u32 = 0x2_0000;

/// Whether a flag is set.
pub open spec fn has_flag(flags: u32, flag: u32) -> bool {
    flags & flag != 0
}

/// A flag where the condition holds, else nothing.
pub open spec fn flag_if(cond: bool, flag: u32) -> u32 {
    if cond {
        flag
    } else {
        0
    }
}

} // verus!
