//! Windows file systems: their times and attributes.

use vstd::prelude::*;

use crate::error::{FsError, IoFailure};
use crate::filelist::entry::{S_IFDIR, S_IFREG, WIRE_S_IFLNK};
use crate::fs::metadata::FileMetadata;
use crate::fs::unix::{io_error, UnixFileSystem};

verus! {

/// Windows FILETIME ticks per second (100ns intervals).
pub const WINDOWS_TICK: u64 = 10_000_000;

/// Seconds between Windows epoch (1601-01-01) and Unix epoch (1970-01-01).
pub const SEC_TO_UNIX_EPOCH: i64 = 11_644_473_600;

/// Windows file attribute: read-only.
pub const FILE_ATTRIBUTE_READONLY: u32 = 0x1;

/// Windows file attribute: directory.
pub const FILE_ATTRIBUTE_DIRECTORY: u32 = 0x10;

/// Windows file attribute: reparse point (symlinks, junctions).
pub const FILE_ATTRIBUTE_REPARSE_POINT: u32 = 0x400;

/// Seconds and nanoseconds of the Unix clock for a time in ticks.
pub open spec fn unix_time(ft: u64) -> (i64, u32) {
    (
        (ft as int / 10_000_000 - 11_644_473_600) as i64,
        ((ft as int % 10_000_000) * 100) as u32,
    )
}

/// The permissions of a file.
pub open spec fn attr_perms(is_dir: bool, readonly: bool) -> u32 {
    if is_dir {
        if readonly {
            0o555
        } else {
            0o755
        }
    } else if readonly {
        0o444
    } else {
        0o644
    }
}

/// The mode of a file: a symbolic link where it is a reparse point.
pub open spec fn attr_mode(attrs: u32, is_dir: bool) -> u32 {
    if attrs & FILE_ATTRIBUTE_REPARSE_POINT != 0 {
        WIRE_S_IFLNK | 0o777
    } else if is_dir {
        S_IFDIR | attr_perms(true, attrs & FILE_ATTRIBUTE_READONLY != 0)
    } else {
        S_IFREG | attr_perms(false, attrs & FILE_ATTRIBUTE_READONLY != 0)
    }
}

/// An offset from the Unix epoch: seconds before it or after it, then
/// nanoseconds after that.
#[derive(Debug, Clone, Copy, PartialEq, Eq, Structural)]
pub struct EpochOffset {
    /// Whether the seconds go back in time.
    pub before: bool,
    /// Whole seconds.
    pub secs: u64,
    /// Nanoseconds, always forward.
    pub nsec: u32,
}

/// Ticks, seconds and nanoseconds tell the same time.
pub proof fn unix_time_is_exact(ft: u64)
    ensures
        (unix_time(ft).0 + 11_644_473_600) * 10_000_000 + unix_time(ft).1 / 100 == ft,
        unix_time(ft).1 < 1_000_000_000,
{
}

/// Standard Windows filesystem.
#[derive(Debug, Default)]
pub struct WindowsFileSystem;

impl WindowsFileSystem {
    pub fn new() -> (r: WindowsFileSystem)
        ensures
            r == WindowsFileSystem,
    {
        WindowsFileSystem
    }

    /// The error for a failed operation on a path.
    pub fn map_io_err(path: &[u8], e: IoFailure) -> (r: FsError)
        ensures
            r@ == io_error(path@, e@),
    {
        UnixFileSystem::map_io_err(path, e)
    }

    /// Convert Windows FILETIME (100ns since 1601-01-01) to Unix timestamp.
    pub fn filetime_to_unix(ft: u64) -> (r: (i64, u32))
        ensures
            r == unix_time(ft),
    {
        let total_secs: i64 = (ft / WINDOWS_TICK) as i64 - SEC_TO_UNIX_EPOCH;
        let nsec: u32 = ((ft % WINDOWS_TICK) * 100) as u32;
        (total_secs, nsec)
    }

    /// Convert Unix timestamp to an offset from the Unix epoch.
    pub fn unix_to_system_time(secs: i64, nsec: u32) -> (r: EpochOffset)
        requires
            secs > i64::MIN,
        ensures
            r.before == (secs < 0),
            r.secs == (if secs < 0 {
                -secs
            } else {
                secs as int
            }),
            r.nsec == nsec,
    {
        if secs >= 0 {
            EpochOffset { before: false, secs: secs as u64, nsec }
        } else {
            EpochOffset { before: true, secs: (-secs) as u64, nsec }
        }
    }

    /// Synthesize a Unix-style mode from Windows file attributes.
    ///
    /// Mapping:
    /// - Directory + read-only -> 0o040555
    /// - Directory + writable  -> 0o040755
    /// - File + read-only      -> 0o100444
    /// - File + writable       -> 0o100644
    /// - Symlink (reparse)     -> 0o120777
    pub fn mode_from_attrs(attrs: u32, is_dir: bool) -> (r: u32)
        ensures
            r == attr_mode(attrs, is_dir),
    {
        if attrs & FILE_ATTRIBUTE_REPARSE_POINT != 0 {
            return WIRE_S_IFLNK | 0o777;
        }
        let readonly = attrs & FILE_ATTRIBUTE_READONLY != 0;
        if is_dir {
            S_IFDIR | if readonly {
                0o555
            } else {
                0o755
            }
        } else {
            S_IFREG | if readonly {
                0o444
            } else {
                0o644
            }
        }
    }

    /// Metadata from what the system tells of a file.
    pub fn metadata_from_parts(len: u64, last_write: u64, attrs: u32, is_dir: bool) -> (r:
        FileMetadata)
        ensures
            r == (FileMetadata {
                len: len as i64,
                mtime: unix_time(last_write).0,
                mtime_nsec: unix_time(last_write).1,
                mode: attr_mode(attrs, is_dir),
                uid: 0,
                gid: 0,
                rdev: 0,
                dev: 0,
                ino: 0,
                nlink: 1,
            }),
    {
        let (mtime, mtime_nsec): (i64, u32) = Self::filetime_to_unix(last_write);
        FileMetadata {
            len: len as i64,
            mtime,
            mtime_nsec,
            mode: Self::mode_from_attrs(attrs, is_dir),
            uid: 0,
            gid: 0,
            rdev: 0,
            dev: 0,
            ino: 0,
            nlink: 1,
        }
    }
}

} // verus!
