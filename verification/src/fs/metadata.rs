//! Platform-independent file metadata.

use vstd::prelude::*;

use crate::filelist::entry::{
    empty_entry, to_wire_mode, EntryView, FileEntry, HardLinkInfo, S_IFDIR, S_IFMT,
};

verus! {

/// Size in bytes from which files are streamed in place of being read whole.
pub const STREAMING_THRESHOLD: i64 = 67_108_864;

/// Size in bytes below which files are read in place of being mapped.
pub const MMAP_THRESHOLD: i64 = 32_768;

/// File metadata used for transfer decisions and attribute preservation.
#[derive(Debug, Clone, Copy, PartialEq, Eq, Structural)]
pub struct FileMetadata {
    /// File size in bytes.
    pub len: i64,
    /// Modification time (Unix timestamp, seconds).
    pub mtime: i64,
    /// Modification time nanoseconds.
    pub mtime_nsec: u32,
    /// File mode (type + permissions), in platform format.
    pub mode: u32,
    /// Owner user ID.
    pub uid: u32,
    /// Owner group ID.
    pub gid: u32,
    /// Device number for device files.
    pub rdev: u64,
    /// Device ID of the filesystem containing this file.
    pub dev: u64,
    /// Inode number.
    pub ino: u64,
    /// Number of hard links.
    pub nlink: u64,
}

impl Default for FileMetadata {
    fn default() -> (r: FileMetadata)
        ensures
            r == (FileMetadata {
                len: 0,
                mtime: 0,
                mtime_nsec: 0,
                mode: 0,
                uid: 0,
                gid: 0,
                rdev: 0,
                dev: 0,
                ino: 0,
                nlink: 0,
            }),
    {
        FileMetadata {
            len: 0,
            mtime: 0,
            mtime_nsec: 0,
            mode: 0,
            uid: 0,
            gid: 0,
            rdev: 0,
            dev: 0,
            ino: 0,
            nlink: 0,
        }
    }
}

/// The hard-link identity of a file with more than one link.
pub open spec fn link_identity(m: FileMetadata) -> Option<HardLinkInfo> {
    if m.nlink > 1 {
        Some(HardLinkInfo { dev: m.dev, ino: m.ino, nlink: m.nlink })
    } else {
        None
    }
}

/// The file list entry of a file.
pub open spec fn entry_for(m: FileMetadata, name: Seq<u8>) -> EntryView {
    EntryView {
        len: m.len,
        mtime: m.mtime,
        mtime_nsec: m.mtime_nsec,
        mode: m.mode,
        uid: m.uid,
        gid: m.gid,
        rdev: m.rdev,
        hard_link_info: link_identity(m),
        ..empty_entry(name)
    }
}

/// Whether the metadata is that of a directory.
pub open spec fn is_directory(m: FileMetadata) -> bool {
    m.mode & S_IFMT == S_IFDIR
}

impl FileMetadata {
    /// Get hard-link identity info (only meaningful when nlink > 1).
    pub fn hard_link_info(&self) -> (r: Option<HardLinkInfo>)
        ensures
            r == link_identity(*self),
    {
        if self.nlink > 1 {
            Some(HardLinkInfo { dev: self.dev, ino: self.ino, nlink: self.nlink })
        } else {
            None
        }
    }

    /// Whether this is a directory.
    pub fn is_dir(&self) -> (r: bool)
        ensures
            r == is_directory(*self),
    {
        self.mode & S_IFMT == S_IFDIR
    }

    /// Convert to a file list entry.
    pub fn to_file_entry(&self, name: Vec<u8>) -> (r: FileEntry)
        ensures
            r@ == entry_for(*self, name@),
    {
        let mut e = FileEntry::named(name);
        e.len = self.len;
        e.mtime = self.mtime;
        e.mtime_nsec = self.mtime_nsec;
        e.mode = to_wire_mode(self.mode);
        e.uid = self.uid;
        e.gid = self.gid;
        e.rdev = self.rdev;
        e.hard_link_info = self.hard_link_info();
        e
    }
}

/// A directory entry.
#[derive(Debug, Clone)]
pub struct DirEntry {
    /// Entry name (just the filename, not the full path).
    pub name: Vec<u8>,
    /// Metadata for this entry (links are not followed).
    pub metadata: FileMetadata,
}

/// The view of a [`DirEntry`].
#[verifier::ext_equal]
pub struct DirEntryView {
    pub name: Seq<u8>,
    pub metadata: FileMetadata,
}

impl View for DirEntry {
    type V = DirEntryView;

    open spec fn view(&self) -> DirEntryView {
        DirEntryView { name: self.name@, metadata: self.metadata }
    }
}

} // verus!
