//! Delta state shared between encoder and decoder.
//!
//! Each file entry is delta-encoded against the previous entry's fields.
//! [`DeltaState`] tracks the previous values across sequential calls.

use vstd::prelude::*;

use crate::filelist::entry::{copy_bytes, rdev_major_of, EntryView, FileEntry};

verus! {

/// Delta state maintained across sequential file entry encode/decode calls.
#[derive(Debug)]
pub struct DeltaState {
    /// Previous entry's full filename (for prefix compression).
    pub prev_name: Vec<u8>,
    /// Previous modification time.
    pub prev_mtime: i64,
    /// Previous file mode.
    pub prev_mode: u32,
    /// Previous uid.
    pub prev_uid: u32,
    /// Previous gid.
    pub prev_gid: u32,
    /// Previous device number (major << 8 | minor).
    pub prev_rdev: u64,
    /// Previous rdev major.
    pub prev_rdev_major: u32,
    /// Previous username.
    pub prev_user_name: Vec<u8>,
    /// Previous group name.
    pub prev_group_name: Vec<u8>,
    /// Starting NDX of the current sub-flist (0 for batch mode, >= 1 for
    /// incremental). Used to convert absolute wire indices to positions in
    /// the sub-flist for hardlink back-references.
    pub ndx_start: i32,
}

/// The view of a [`DeltaState`].
#[verifier::ext_equal]
pub struct DeltaView {
    pub prev_name: Seq<u8>,
    pub prev_mtime: i64,
    pub prev_mode: u32,
    pub prev_uid: u32,
    pub prev_gid: u32,
    pub prev_rdev: u64,
    pub prev_rdev_major: u32,
    pub prev_user_name: Seq<u8>,
    pub prev_group_name: Seq<u8>,
    pub ndx_start: i32,
}

impl View for DeltaState {
    type V = DeltaView;

    open spec fn view(&self) -> DeltaView {
        DeltaView {
            prev_name: self.prev_name@,
            prev_mtime: self.prev_mtime,
            prev_mode: self.prev_mode,
            prev_uid: self.prev_uid,
            prev_gid: self.prev_gid,
            prev_rdev: self.prev_rdev,
            prev_rdev_major: self.prev_rdev_major,
            prev_user_name: self.prev_user_name@,
            prev_group_name: self.prev_group_name@,
            ndx_start: self.ndx_start,
        }
    }
}

impl DeltaView {
    /// The state before any entry.
    pub open spec fn initial() -> DeltaView {
        DeltaView {
            prev_name: Seq::empty(),
            prev_mtime: 0,
            prev_mode: 0,
            prev_uid: 0,
            prev_gid: 0,
            prev_rdev: 0,
            prev_rdev_major: 0,
            prev_user_name: Seq::empty(),
            prev_group_name: Seq::empty(),
            ndx_start: 0,
        }
    }

    /// The state after an entry.
    pub open spec fn after(self, e: EntryView) -> DeltaView {
        DeltaView {
            prev_name: e.name,
            prev_mtime: e.mtime,
            prev_mode: e.mode,
            prev_uid: e.uid,
            prev_gid: e.gid,
            prev_rdev: e.rdev,
            prev_rdev_major: rdev_major_of(e.rdev),
            prev_user_name: e.user_name,
            prev_group_name: e.group_name,
            ndx_start: self.ndx_start,
        }
    }
}

impl Clone for DeltaState {
    fn clone(&self) -> (r: Self)
        ensures
            r@ == self@,
    {
        DeltaState {
            prev_name: copy_bytes(&self.prev_name),
            prev_mtime: self.prev_mtime,
            prev_mode: self.prev_mode,
            prev_uid: self.prev_uid,
            prev_gid: self.prev_gid,
            prev_rdev: self.prev_rdev,
            prev_rdev_major: self.prev_rdev_major,
            prev_user_name: copy_bytes(&self.prev_user_name),
            prev_group_name: copy_bytes(&self.prev_group_name),
            ndx_start: self.ndx_start,
        }
    }
}

impl Default for DeltaState {
    fn default() -> (r: Self)
        ensures
            r@ == DeltaView::initial(),
    {
        DeltaState {
            prev_name: Vec::new(),
            prev_mtime: 0,
            prev_mode: 0,
            prev_uid: 0,
            prev_gid: 0,
            prev_rdev: 0,
            prev_rdev_major: 0,
            prev_user_name: Vec::new(),
            prev_group_name: Vec::new(),
            ndx_start: 0,
        }
    }
}

/// Update delta state after encoding/decoding an entry.
pub fn update_delta_state(state: &mut DeltaState, entry: &FileEntry)
    ensures
        final(state)@ == old(state)@.after(entry@),
{
    state.prev_name = copy_bytes(&entry.name);
    state.prev_mtime = entry.mtime;
    state.prev_mode = entry.mode;
    state.prev_uid = entry.uid;
    state.prev_gid = entry.gid;
    state.prev_rdev = entry.rdev;
    state.prev_rdev_major = entry.rdev_major();
    state.prev_user_name = copy_bytes(&entry.user_name);
    state.prev_group_name = copy_bytes(&entry.group_name);
}

} // verus!
