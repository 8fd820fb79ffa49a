//! Codec for rsync file list entries.
//!
//! The rsync file list wire format uses delta encoding: each entry's fields
//! are compared against the previous entry, and XMIT flags indicate which
//! fields have changed. The encoder and the decoder call per-field functions
//! in the same order.
//!
//! - **`fields`** -- per-field encode/decode functions
//! - **`hlink`** -- hard-link encoder/decoder state and field functions
//! - **`options`** -- which fields the wire format has
//! - **`state`** -- delta state between entries
//!
//! Supports protocol versions 27-31.

use vstd::prelude::*;

pub mod fields;
pub mod hlink;
pub mod laws;
pub mod options;
pub mod state;

pub use fields::{decode_xmit_flags, encode_xmit_flags, write_end_of_flist, DecodedFlags};
pub use hlink::{
    HardLinkAction, HardLinkDecoder, HardLinkEncoder, HardLinkInfo, HlinkDecodeResult,
    HlinkEncodeResult,
};
pub use options::FileListOptions;
pub use state::{update_delta_state, DeltaState};

use crate::error::{ProtocolError, ProtocolErrorView};
use crate::filelist::entry::{
    entry_views, rdev_major_of, same_bytes, EntryView, FileEntry, S_IFMT, S_IFREG, WIRE_S_IFLNK,
};
use crate::filelist::xmit::{
    flag_if, has_flag, XMIT_GROUP_NAME_FOLLOWS, XMIT_HLINKED, XMIT_HLINK_FIRST, XMIT_LONG_NAME,
    XMIT_MOD_NSEC, XMIT_RDEV_MINOR_8_PRE30, XMIT_SAME_GID, XMIT_SAME_MODE, XMIT_SAME_NAME,
    XMIT_SAME_RDEV_MAJOR, XMIT_SAME_RDEV_PRE28, XMIT_SAME_TIME, XMIT_SAME_UID, XMIT_TOP_DIR,
    XMIT_USER_NAME_FOLLOWS,
};
use crate::protocol::varint::{
    read_varlong30, u32_of, varint_read_back, varlong30_at, varlong30_bytes, varlong30_read_back,
    write_varlong30,
};
use crate::protocol::wire::{holds_at, holds_split, WireReader};
use fields::{
    checksum_at, checksum_bytes, checksum_read_back, common_prefix, common_prefix_len, decode_checksum,
    decode_filename, decode_mode, decode_mtime, decode_mtime_nsec, decode_owner, decode_rdev,
    decode_symlink, encode_checksum, encode_filename, encode_mode, encode_mtime,
    encode_mtime_nsec, encode_owner, encode_rdev, encode_symlink, fitted, flags_at, flags_bytes,
    flags_read_back, link_at, link_bytes, link_read_back, mode_at, mode_bytes, mode_read_back, mtime_at,
    mtime_bytes, mtime_read_back, name_at, name_bytes, name_read_back, nsec_at, nsec_bytes, nsec_read_back,
    owner_at, owner_bytes, owner_read_back, rdev_at, rdev_bytes, rdev_fits, rdev_read_back,
    sendable_flags, sends_checksum, sends_link, sends_rdev, should_send_rdev, wire_flags,
    wire_flags_keep, MAX_NAME_LEN,
};
use hlink::{
    decode_hlink, encode_hlink, hlink_at, hlink_bytes, info_of, is_back_reference, linked_entry,
    resolve_hlink_action, resolved_action, resolved_seen,
};
use state::DeltaView;

verus! {

/// Result of reading a file list entry -- either an entry or end-of-list.
#[derive(Debug)]
pub enum ReadEntryResult {
    /// A file entry was read.
    Entry(FileEntry),
    /// End of file list, with optional I/O error code.
    EndOfList { io_error: i32 },
}

// ---------------------------------------------------------------------------
// Wire form of an entry
// ---------------------------------------------------------------------------

/// Whether the user name goes along with the uid.
pub open spec fn user_follows(e: EntryView, st: DeltaView, o: FileListOptions) -> bool {
    o.preserve_uid && e.uid != st.prev_uid && o.protocol_version >= 30 && e.user_name.len() > 0
        && e.user_name != st.prev_user_name
}

/// Whether the group name goes along with the gid.
pub open spec fn group_follows(e: EntryView, st: DeltaView, o: FileListOptions) -> bool {
    o.preserve_gid && e.gid != st.prev_gid && o.protocol_version >= 30 && e.group_name.len() > 0
        && e.group_name != st.prev_group_name
}

/// The flags of an entry after the entry that the state remembers.
pub open spec fn entry_flags(
    e: EntryView,
    st: DeltaView,
    o: FileListOptions,
    act: HardLinkAction,
) -> u32 {
    let pv = o.protocol_version;
    let prefix = common_prefix(st.prev_name, e.name);
    let rdev = sends_rdev(e.mode, o);
    flag_if(has_flag(e.flags, XMIT_TOP_DIR), XMIT_TOP_DIR)
        | flag_if(e.mode == st.prev_mode, XMIT_SAME_MODE)
        | flag_if(rdev && pv < 28 && e.rdev == st.prev_rdev, XMIT_SAME_RDEV_PRE28)
        | flag_if(o.preserve_uid && e.uid == st.prev_uid, XMIT_SAME_UID)
        | flag_if(o.preserve_gid && e.gid == st.prev_gid, XMIT_SAME_GID)
        | flag_if(prefix > 0, XMIT_SAME_NAME)
        | flag_if(e.name.len() - prefix > 255, XMIT_LONG_NAME)
        | flag_if(e.mtime == st.prev_mtime, XMIT_SAME_TIME)
        | flag_if(
        rdev && pv >= 28 && rdev_major_of(e.rdev) == st.prev_rdev_major,
        XMIT_SAME_RDEV_MAJOR,
    ) | flag_if(act != HardLinkAction::NotHardLinked, XMIT_HLINKED)
        | flag_if(user_follows(e, st, o), XMIT_USER_NAME_FOLLOWS)
        | flag_if(group_follows(e, st, o), XMIT_GROUP_NAME_FOLLOWS)
        | flag_if(act == HardLinkAction::FirstOccurrence, XMIT_HLINK_FIRST)
        | flag_if(pv >= 31 && e.mtime_nsec != 0, XMIT_MOD_NSEC)
}

/// The bytes of length, times and mode.
pub open spec fn head_bytes(e: EntryView, st: DeltaView, o: FileListOptions) -> Seq<u8> {
    let pv = o.protocol_version;
    varlong30_bytes(e.len, 3, pv) + (mtime_bytes(e.mtime, e.mtime == st.prev_mtime, pv) + (
    nsec_bytes(e.mtime_nsec, pv) + mode_bytes(e.mode, e.mode == st.prev_mode)))
}

/// The bytes of owner and group.
pub open spec fn owners_bytes(e: EntryView, st: DeltaView, o: FileListOptions) -> Seq<u8> {
    let pv = o.protocol_version;
    owner_bytes(
        o.preserve_uid && e.uid != st.prev_uid,
        e.uid,
        e.user_name,
        user_follows(e, st, o),
        pv,
    ) + owner_bytes(
        o.preserve_gid && e.gid != st.prev_gid,
        e.gid,
        e.group_name,
        group_follows(e, st, o),
        pv,
    )
}

/// The bytes of device number, link target and checksum.
pub open spec fn special_bytes(e: EntryView, st: DeltaView, o: FileListOptions) -> Seq<u8> {
    let pv = o.protocol_version;
    rdev_bytes(
        sends_rdev(e.mode, o),
        e.rdev,
        e.rdev == st.prev_rdev,
        rdev_major_of(e.rdev) == st.prev_rdev_major,
        pv,
    ) + (link_bytes(sends_link(e.mode, o), e.link_target, pv) + checksum_bytes(
        sends_checksum(e.mode, o),
        e.checksum,
        o.checksum_len as nat,
    ))
}

/// The bytes of the fields behind the mode.
pub open spec fn tail_bytes(e: EntryView, st: DeltaView, o: FileListOptions) -> Seq<u8> {
    owners_bytes(e, st, o) + special_bytes(e, st, o)
}

/// The bytes of the fields behind the name.
pub open spec fn body_bytes(e: EntryView, st: DeltaView, o: FileListOptions) -> Seq<u8> {
    head_bytes(e, st, o) + tail_bytes(e, st, o)
}

/// The bytes of an entry after the entry that the state remembers. A
/// duplicate hard link ends behind its back-reference.
pub open spec fn entry_bytes(
    e: EntryView,
    st: DeltaView,
    o: FileListOptions,
    act: HardLinkAction,
) -> Seq<u8> {
    flags_bytes(entry_flags(e, st, o, act), o) + (name_bytes(
        e.name,
        st.prev_name,
        o.protocol_version,
    ) + (hlink_bytes(act) + (if act is DuplicateOf {
        Seq::empty()
    } else {
        body_bytes(e, st, o)
    })))
}

// ---------------------------------------------------------------------------
// Reading an entry
// ---------------------------------------------------------------------------

/// What stands at a position of a file list.
pub enum RecordView {
    /// An entry, and the index it refers to where it is an abbreviated duplicate.
    Entry(EntryView, Option<i32>),
    /// The end of the list.
    EndOfList { io_error: i32 },
}

/// The fields behind the name at a position, as an entry.
pub open spec fn body_at(
    s: Seq<u8>,
    p: int,
    flags: u32,
    name: Seq<u8>,
    st: DeltaView,
    o: FileListOptions,
) -> Result<(EntryView, int), ProtocolErrorView> {
    let pv = o.protocol_version;
    match varlong30_at(s, p, 3, pv) {
        Err(e) => Err(e),
        Ok((len, p1)) => match mtime_at(s, p1, st.prev_mtime, flags, pv) {
            Err(e) => Err(e),
            Ok((mtime, p2)) => match nsec_at(s, p2, flags, pv) {
                Err(e) => Err(e),
                Ok((mtime_nsec, p3)) => match mode_at(s, p3, st.prev_mode, flags) {
                    Err(e) => Err(e),
                    Ok((mode, p4)) => tail_at(
                        s,
                        p4,
                        flags,
                        EntryView {
                            len,
                            mtime,
                            mtime_nsec,
                            mode,
                            flags,
                            ..crate::filelist::entry::empty_entry(name)
                        },
                        st,
                        o,
                    ),
                },
            },
        },
    }
}

/// The fields behind the mode at a position, which complete an entry.
pub open spec fn tail_at(
    s: Seq<u8>,
    p: int,
    flags: u32,
    head: EntryView,
    st: DeltaView,
    o: FileListOptions,
) -> Result<(EntryView, int), ProtocolErrorView> {
    let pv = o.protocol_version;
    match owner_at(
        s,
        p,
        o.preserve_uid && !has_flag(flags, XMIT_SAME_UID),
        has_flag(flags, XMIT_USER_NAME_FOLLOWS),
        st.prev_uid,
        st.prev_user_name,
        pv,
    ) {
        Err(e) => Err(e),
        Ok((uid, user_name, p1)) => match owner_at(
            s,
            p1,
            o.preserve_gid && !has_flag(flags, XMIT_SAME_GID),
            has_flag(flags, XMIT_GROUP_NAME_FOLLOWS),
            st.prev_gid,
            st.prev_group_name,
            pv,
        ) {
            Err(e) => Err(e),
            Ok((gid, group_name, p2)) => special_at(
                s,
                p2,
                flags,
                EntryView { uid, gid, user_name, group_name, ..head },
                st,
                o,
            ),
        },
    }
}

/// Device number, link target and checksum at a position, which complete an
/// entry.
pub open spec fn special_at(
    s: Seq<u8>,
    p: int,
    flags: u32,
    head: EntryView,
    st: DeltaView,
    o: FileListOptions,
) -> Result<(EntryView, int), ProtocolErrorView> {
    let pv = o.protocol_version;
    match rdev_at(
        s,
        p,
        sends_rdev(head.mode, o),
        flags,
        st.prev_rdev,
        st.prev_rdev_major,
        pv,
    ) {
        Err(e) => Err(e),
        Ok((rdev, p1)) => match link_at(s, p1, sends_link(head.mode, o), pv) {
            Err(e) => Err(e),
            Ok((link_target, p2)) => match checksum_at(
                s,
                p2,
                sends_checksum(head.mode, o),
                o.checksum_len as nat,
            ) {
                Err(e) => Err(e),
                Ok((checksum, p3)) => Ok((EntryView { rdev, link_target, checksum, ..head }, p3)),
            },
        },
    }
}

/// The record at a position of a file list, after the entry that the state
/// remembers and given the entries before it in the same list.
pub open spec fn record_at(
    s: Seq<u8>,
    p: int,
    st: DeltaView,
    o: FileListOptions,
    prev: Seq<EntryView>,
) -> Result<(RecordView, int), ProtocolErrorView> {
    match flags_at(s, p, o) {
        Err(e) => Err(e),
        Ok((DecodedFlags::EndOfList { io_error }, q)) => Ok(
            (RecordView::EndOfList { io_error }, q),
        ),
        Ok((DecodedFlags::Entry(flags), q)) => match name_at(
            s,
            q,
            st.prev_name,
            flags,
            o.protocol_version,
        ) {
            Err(e) => Err(e),
            Ok((name, q2)) => match hlink_at(s, q2, flags, o, prev, name, st.ndx_start) {
                Err(e) => Err(e),
                Ok((Some((entry, first)), q3)) => Ok((RecordView::Entry(entry, Some(first)), q3)),
                Ok((None, q3)) => match body_at(s, q3, flags, name, st, o) {
                    Err(e) => Err(e),
                    Ok((entry, q4)) => Ok((RecordView::Entry(entry, None), q4)),
                },
            },
        },
    }
}

// ---------------------------------------------------------------------------
// Encoder
// ---------------------------------------------------------------------------

fn pick(cond: bool, flag: u32) -> (r: u32)
    ensures
        r == flag_if(cond, flag),
{
    if cond {
        flag
    } else {
        0
    }
}

/// Computes the flags of an entry.
pub fn compute_xmit_flags(
    entry: &FileEntry,
    state: &DeltaState,
    opts: &FileListOptions,
    hlink_action: &HardLinkAction,
) -> (r: u32)
    ensures
        r == entry_flags(entry@, state@, *opts, *hlink_action),
{
    let pv = opts.protocol_version;
    let prefix = common_prefix_len(&state.prev_name, &entry.name);
    let suffix: usize = entry.name.len() - prefix;
    let rdev = should_send_rdev(entry.mode, opts);
    let user = opts.preserve_uid && entry.uid != state.prev_uid && pv >= 30
        && entry.user_name.len() > 0 && !same_bytes(&entry.user_name, &state.prev_user_name);
    let group = opts.preserve_gid && entry.gid != state.prev_gid && pv >= 30
        && entry.group_name.len() > 0 && !same_bytes(&entry.group_name, &state.prev_group_name);
    let linked = match hlink_action {
        HardLinkAction::NotHardLinked => false,
        _ => true,
    };
    let first = match hlink_action {
        HardLinkAction::FirstOccurrence => true,
        _ => false,
    };
    pick(entry.flags & XMIT_TOP_DIR != 0, XMIT_TOP_DIR)
        | pick(entry.mode == state.prev_mode, XMIT_SAME_MODE)
        | pick(rdev && pv < 28 && entry.rdev == state.prev_rdev, XMIT_SAME_RDEV_PRE28)
        | pick(opts.preserve_uid && entry.uid == state.prev_uid, XMIT_SAME_UID)
        | pick(opts.preserve_gid && entry.gid == state.prev_gid, XMIT_SAME_GID)
        | pick(prefix > 0, XMIT_SAME_NAME)
        | pick(suffix > 255, XMIT_LONG_NAME)
        | pick(entry.mtime == state.prev_mtime, XMIT_SAME_TIME)
        | pick(
        rdev && pv >= 28 && entry.rdev_major() == state.prev_rdev_major,
        XMIT_SAME_RDEV_MAJOR,
    ) | pick(linked, XMIT_HLINKED)
        | pick(user, XMIT_USER_NAME_FOLLOWS)
        | pick(group, XMIT_GROUP_NAME_FOLLOWS)
        | pick(first, XMIT_HLINK_FIRST)
        | pick(pv >= 31 && entry.mtime_nsec != 0, XMIT_MOD_NSEC)
}

/// Bytes appended one run after the other are appended as a whole.
proof fn join4(x: Seq<u8>, a: Seq<u8>, b: Seq<u8>, c: Seq<u8>, d: Seq<u8>)
    ensures
        x + a + b + c + d == x + (a + (b + (c + d))),
{
    assert(x + a + b + c + d =~= x + (a + (b + (c + d))));
}

proof fn join3(x: Seq<u8>, a: Seq<u8>, b: Seq<u8>, c: Seq<u8>)
    ensures
        x + a + b + c == x + (a + (b + c)),
{
    assert(x + a + b + c =~= x + (a + (b + c)));
}

proof fn join2(x: Seq<u8>, a: Seq<u8>, b: Seq<u8>)
    ensures
        x + a + b == x + (a + b),
{
    assert(x + a + b =~= x + (a + b));
}

/// Writes length, times and mode.
fn encode_head(w: &mut Vec<u8>, entry: &FileEntry, state: &DeltaState, opts: &FileListOptions)
    ensures
        final(w)@ == old(w)@ + head_bytes(entry@, state@, *opts),
{
    let pv = opts.protocol_version;
    write_varlong30(w, entry.len, 3, pv);
    encode_mtime(w, entry.mtime, entry.mtime == state.prev_mtime, pv);
    encode_mtime_nsec(w, entry.mtime_nsec, pv);
    encode_mode(w, entry.mode, entry.mode == state.prev_mode);
    proof {
        join4(
            old(w)@,
            varlong30_bytes(entry.len, 3, pv),
            mtime_bytes(entry.mtime, entry.mtime == state.prev_mtime, pv),
            nsec_bytes(entry.mtime_nsec, pv),
            mode_bytes(entry.mode, entry.mode == state.prev_mode),
        );
    }
}

/// Writes owner and group.
fn encode_owners(w: &mut Vec<u8>, entry: &FileEntry, state: &DeltaState, opts: &FileListOptions)
    ensures
        final(w)@ == old(w)@ + owners_bytes(entry@, state@, *opts),
{
    let pv = opts.protocol_version;
    let send_uid = opts.preserve_uid && entry.uid != state.prev_uid;
    let send_gid = opts.preserve_gid && entry.gid != state.prev_gid;
    let user = send_uid && pv >= 30 && entry.user_name.len() > 0 && !same_bytes(
        &entry.user_name,
        &state.prev_user_name,
    );
    let group = send_gid && pv >= 30 && entry.group_name.len() > 0 && !same_bytes(
        &entry.group_name,
        &state.prev_group_name,
    );
    encode_owner(w, send_uid, entry.uid, &entry.user_name, user, pv);
    encode_owner(w, send_gid, entry.gid, &entry.group_name, group, pv);
    proof {
        assert(user == user_follows(entry@, state@, *opts));
        assert(group == group_follows(entry@, state@, *opts));
        join2(
            old(w)@,
            owner_bytes(send_uid, entry.uid, entry.user_name@, user, pv),
            owner_bytes(send_gid, entry.gid, entry.group_name@, group, pv),
        );
    }
}

/// Writes device number, link target and checksum.
fn encode_special(w: &mut Vec<u8>, entry: &FileEntry, state: &DeltaState, opts: &FileListOptions)
    ensures
        final(w)@ == old(w)@ + special_bytes(entry@, state@, *opts),
{
    let pv = opts.protocol_version;
    let rdev = should_send_rdev(entry.mode, opts);
    let same_rdev = entry.rdev == state.prev_rdev;
    let same_major = entry.rdev_major() == state.prev_rdev_major;
    let link = (entry.mode & S_IFMT) == WIRE_S_IFLNK && opts.preserve_links;
    let sum = opts.always_checksum && ((entry.mode & S_IFMT) == S_IFREG || pv < 28);
    encode_rdev(w, rdev, entry.rdev, same_rdev, same_major, pv);
    encode_symlink(w, link, &entry.link_target, pv);
    encode_checksum(w, sum, &entry.checksum, opts.checksum_len);
    proof {
        join3(
            old(w)@,
            rdev_bytes(rdev, entry.rdev, same_rdev, same_major, pv),
            link_bytes(link, entry.link_target@, pv),
            checksum_bytes(sum, entry.checksum@, opts.checksum_len as nat),
        );
    }
}

/// Writes the fields behind the name.
fn encode_body(w: &mut Vec<u8>, entry: &FileEntry, state: &DeltaState, opts: &FileListOptions)
    ensures
        final(w)@ == old(w)@ + body_bytes(entry@, state@, *opts),
{
    encode_head(w, entry, state, opts);
    encode_owners(w, entry, state, opts);
    encode_special(w, entry, state, opts);
    proof {
        join3(
            old(w)@,
            head_bytes(entry@, state@, *opts),
            owners_bytes(entry@, state@, *opts),
            special_bytes(entry@, state@, *opts),
        );
    }
}

/// Encode a file entry to the wire format.
pub fn encode_entry(
    w: &mut Vec<u8>,
    entry: &FileEntry,
    state: &mut DeltaState,
    opts: &FileListOptions,
    hlink_encoder: &mut HardLinkEncoder,
    hlink_info: Option<&HardLinkInfo>,
    entry_index: i32,
)
    ensures
        final(w)@ == old(w)@ + entry_bytes(
            entry@,
            old(state)@,
            *opts,
            resolved_action(*opts, info_of(hlink_info), old(hlink_encoder)@),
        ),
        final(state)@ == old(state)@.after(entry@),
        final(hlink_encoder)@ == resolved_seen(
            *opts,
            info_of(hlink_info),
            old(hlink_encoder)@,
            entry_index,
        ),
{
    let action = resolve_hlink_action(opts, hlink_info, hlink_encoder, entry_index);
    let flags = compute_xmit_flags(entry, state, opts, &action);
    encode_xmit_flags(w, flags, opts);
    encode_filename(w, &entry.name, &state.prev_name, opts.protocol_version);
    let ghost rest: Seq<u8> = if action is DuplicateOf {
        Seq::empty()
    } else {
        body_bytes(entry@, state@, *opts)
    };
    match encode_hlink(w, &action) {
        HlinkEncodeResult::Abbreviated => {
            assert(w@ =~= w@ + rest);
        },
        HlinkEncodeResult::Continue => {
            encode_body(w, entry, state, opts);
        },
    }
    proof {
        join4(
            old(w)@,
            flags_bytes(flags, *opts),
            name_bytes(entry.name@, state.prev_name@, opts.protocol_version),
            hlink_bytes(action),
            rest,
        );
    }
    update_delta_state(state, entry);
}

/// Encode a file entry that is not tracked as a hard link.
pub fn send_file_entry(
    w: &mut Vec<u8>,
    entry: &FileEntry,
    state: &mut DeltaState,
    opts: &FileListOptions,
)
    ensures
        final(w)@ == old(w)@ + entry_bytes(
            entry@,
            old(state)@,
            *opts,
            HardLinkAction::NotHardLinked,
        ),
        final(state)@ == old(state)@.after(entry@),
{
    let mut links = HardLinkEncoder::new();
    encode_entry(w, entry, state, opts, &mut links, None, 0);
}

// ---------------------------------------------------------------------------
// Decoder
// ---------------------------------------------------------------------------

/// Reads the fields behind the name.
fn decode_body(
    r: &mut WireReader,
    flags: u32,
    name: Vec<u8>,
    state: &DeltaState,
    opts: &FileListOptions,
) -> (res: Result<FileEntry, ProtocolError>)
    requires
        old(r).wf(),
    ensures
        final(r).wf(),
        final(r).buf@ == old(r).buf@,
        match body_at(old(r).buf@, old(r).pos as int, flags, name@, state@, *opts) {
            Ok((e, p)) => res is Ok && res->Ok_0@ == e && final(r).pos == p,
            Err(f) => res is Err && res->Err_0@ == f,
        },
{
    let pv = opts.protocol_version;
    let len = match read_varlong30(r, 3, pv) {
        Ok(v) => v,
        Err(e) => {
            return Err(e);
        },
    };
    let mtime = match decode_mtime(r, state.prev_mtime, flags, pv) {
        Ok(v) => v,
        Err(e) => {
            return Err(e);
        },
    };
    let mtime_nsec = match decode_mtime_nsec(r, flags, pv) {
        Ok(v) => v,
        Err(e) => {
            return Err(e);
        },
    };
    let mode = match decode_mode(r, state.prev_mode, flags) {
        Ok(v) => v,
        Err(e) => {
            return Err(e);
        },
    };
    let mut head = FileEntry::named(name);
    head.len = len;
    head.mtime = mtime;
    head.mtime_nsec = mtime_nsec;
    head.mode = mode;
    head.flags = flags;
    decode_tail(r, flags, head, state, opts)
}

/// Reads the fields behind the mode.
fn decode_tail(
    r: &mut WireReader,
    flags: u32,
    head: FileEntry,
    state: &DeltaState,
    opts: &FileListOptions,
) -> (res: Result<FileEntry, ProtocolError>)
    requires
        old(r).wf(),
    ensures
        final(r).wf(),
        final(r).buf@ == old(r).buf@,
        match tail_at(old(r).buf@, old(r).pos as int, flags, head@, state@, *opts) {
            Ok((e, p)) => res is Ok && res->Ok_0@ == e && final(r).pos == p,
            Err(f) => res is Err && res->Err_0@ == f,
        },
{
    let pv = opts.protocol_version;
    let mode = head.mode;
    let (uid, user_name) = match decode_owner(
        r,
        opts.preserve_uid && (flags & XMIT_SAME_UID) == 0,
        (flags & XMIT_USER_NAME_FOLLOWS) != 0,
        state.prev_uid,
        &state.prev_user_name,
        pv,
    ) {
        Ok(v) => v,
        Err(e) => {
            return Err(e);
        },
    };
    let (gid, group_name) = match decode_owner(
        r,
        opts.preserve_gid && (flags & XMIT_SAME_GID) == 0,
        (flags & XMIT_GROUP_NAME_FOLLOWS) != 0,
        state.prev_gid,
        &state.prev_group_name,
        pv,
    ) {
        Ok(v) => v,
        Err(e) => {
            return Err(e);
        },
    };
    let rdev = match decode_rdev(
        r,
        should_send_rdev(mode, opts),
        flags,
        state.prev_rdev,
        state.prev_rdev_major,
        pv,
    ) {
        Ok(v) => v,
        Err(e) => {
            return Err(e);
        },
    };
    let link_target = match decode_symlink(
        r,
        (mode & S_IFMT) == WIRE_S_IFLNK && opts.preserve_links,
        pv,
    ) {
        Ok(v) => v,
        Err(e) => {
            return Err(e);
        },
    };
    let checksum = match decode_checksum(
        r,
        opts.always_checksum && ((mode & S_IFMT) == S_IFREG || pv < 28),
        opts.checksum_len,
    ) {
        Ok(v) => v,
        Err(e) => {
            return Err(e);
        },
    };
    let mut entry = head;
    entry.uid = uid;
    entry.gid = gid;
    entry.user_name = user_name;
    entry.group_name = group_name;
    entry.rdev = rdev;
    entry.link_target = link_target;
    entry.checksum = checksum;
    Ok(entry)
}

/// Decode a single file entry from the wire.
///
/// Returns `ReadEntryResult::Entry` with the decoded entry, or
/// `ReadEntryResult::EndOfList` when the end-of-list marker is encountered.
/// Where reading fails, nothing is remembered.
pub fn decode_entry(
    r: &mut WireReader,
    state: &mut DeltaState,
    opts: &FileListOptions,
    hlink_decoder: &mut HardLinkDecoder,
    prev_entries: &[FileEntry],
) -> (res: Result<ReadEntryResult, ProtocolError>)
    requires
        old(r).wf(),
        prev_entries.len() <= i32::MAX,
    ensures
        final(r).wf(),
        final(r).buf@ == old(r).buf@,
        match record_at(
            old(r).buf@,
            old(r).pos as int,
            old(state)@,
            *opts,
            entry_views(prev_entries@),
        ) {
            Ok((RecordView::Entry(e, first), p)) => {
                &&& res is Ok
                &&& res->Ok_0 is Entry
                &&& res->Ok_0->Entry_0@ == e
                &&& final(r).pos == p
                &&& final(state)@ == old(state)@.after(e)
                &&& final(hlink_decoder)@ == (match first {
                    Some(f) => old(hlink_decoder)@.insert(prev_entries.len() as i32, f),
                    None => old(hlink_decoder)@,
                })
            },
            Ok((RecordView::EndOfList { io_error }, p)) => {
                &&& res is Ok
                &&& res->Ok_0 == (ReadEntryResult::EndOfList { io_error })
                &&& final(r).pos == p
                &&& final(state)@ == old(state)@
                &&& final(hlink_decoder)@ == old(hlink_decoder)@
            },
            Err(f) => {
                &&& res is Err
                &&& res->Err_0@ == f
                &&& final(state)@ == old(state)@
                &&& final(hlink_decoder)@ == old(hlink_decoder)@
            },
        },
{
    let flags = match decode_xmit_flags(r, opts) {
        Ok(DecodedFlags::Entry(f)) => f,
        Ok(DecodedFlags::EndOfList { io_error }) => {
            return Ok(ReadEntryResult::EndOfList { io_error });
        },
        Err(e) => {
            return Err(e);
        },
    };
    let name = match decode_filename(r, &state.prev_name, flags, opts.protocol_version) {
        Ok(v) => v,
        Err(e) => {
            return Err(e);
        },
    };
    match decode_hlink(r, flags, opts, hlink_decoder, prev_entries, &name, state) {
        Ok(HlinkDecodeResult::Abbreviated(entry)) => {
            return Ok(ReadEntryResult::Entry(entry));
        },
        Ok(HlinkDecodeResult::Continue) => {},
        Err(e) => {
            return Err(e);
        },
    }
    match decode_body(r, flags, name, state, opts) {
        Ok(entry) => {
            update_delta_state(state, &entry);
            Ok(ReadEntryResult::Entry(entry))
        },
        Err(e) => Err(e),
    }
}

/// The options of a list in which hard links are not tracked.
pub open spec fn without_links(o: FileListOptions) -> FileListOptions {
    FileListOptions { preserve_hard_links: false, ..o }
}

/// Decode a single file entry of a list in which hard links are not tracked.
pub fn recv_file_entry(r: &mut WireReader, state: &mut DeltaState, opts: &FileListOptions) -> (res:
    Result<ReadEntryResult, ProtocolError>)
    requires
        old(r).wf(),
    ensures
        final(r).wf(),
        final(r).buf@ == old(r).buf@,
        match record_at(
            old(r).buf@,
            old(r).pos as int,
            old(state)@,
            without_links(*opts),
            Seq::empty(),
        ) {
            Ok((RecordView::Entry(e, _), p)) => {
                &&& res is Ok
                &&& res->Ok_0 is Entry
                &&& res->Ok_0->Entry_0@ == e
                &&& final(r).pos == p
                &&& final(state)@ == old(state)@.after(e)
            },
            Ok((RecordView::EndOfList { io_error }, p)) => {
                &&& res is Ok
                &&& res->Ok_0 == (ReadEntryResult::EndOfList { io_error })
                &&& final(r).pos == p
                &&& final(state)@ == old(state)@
            },
            Err(f) => {
                &&& res is Err
                &&& res->Err_0@ == f
                &&& final(state)@ == old(state)@
            },
        },
{
    let mut plain = *opts;
    plain.preserve_hard_links = false;
    let mut links = HardLinkDecoder::new();
    let none: Vec<FileEntry> = Vec::new();
    assert(entry_views(none@) =~= Seq::<EntryView>::empty());
    decode_entry(r, state, &plain, &mut links, none.as_slice())
}

// ---------------------------------------------------------------------------
// What is sent is what is received
// ---------------------------------------------------------------------------

/// Both sides remember the same, as far as every entry renews it: name, time
/// and mode, and the ids that are sent.
pub open spec fn in_step(enc: DeltaView, dec: DeltaView, o: FileListOptions) -> bool {
    &&& enc.prev_name == dec.prev_name
    &&& enc.prev_mtime == dec.prev_mtime
    &&& enc.prev_mode == dec.prev_mode
    &&& o.preserve_uid ==> enc.prev_uid == dec.prev_uid
    &&& o.preserve_gid ==> enc.prev_gid == dec.prev_gid
}

/// The entry fits the wire format: its name and link target are not too long,
/// names of owners fit in a byte-counted string, before protocol 30 its time
/// fits in 32 bits, and its device number fits and is not abbreviated against
/// one that the other side does not remember.
pub open spec fn sendable(e: EntryView, enc: DeltaView, dec: DeltaView, o: FileListOptions) -> bool {
    let pv = o.protocol_version;
    &&& e.name.len() <= MAX_NAME_LEN
    &&& pv < 30 ==> -0x8000_0000 <= e.mtime <= 0x7FFF_FFFF
    &&& user_follows(e, enc, o) ==> e.user_name.len() <= 255
    &&& group_follows(e, enc, o) ==> e.group_name.len() <= 255
    &&& sends_rdev(e.mode, o) ==> {
        &&& rdev_fits(e.rdev, pv)
        &&& pv < 28 && e.rdev == enc.prev_rdev ==> dec.prev_rdev == e.rdev
        &&& pv >= 28 && rdev_major_of(e.rdev) == enc.prev_rdev_major ==> dec.prev_rdev_major
            == enc.prev_rdev_major
    }
    &&& sends_link(e.mode, o) ==> e.link_target.len() <= MAX_NAME_LEN
}

/// What the other side receives of an entry: the fields that are sent, and
/// what it remembers in place of the others.
pub open spec fn received(
    e: EntryView,
    enc: DeltaView,
    dec: DeltaView,
    o: FileListOptions,
    act: HardLinkAction,
) -> EntryView {
    EntryView {
        name: e.name,
        len: e.len,
        mtime: e.mtime,
        mtime_nsec: if o.protocol_version >= 31 {
            e.mtime_nsec
        } else {
            0
        },
        mode: e.mode,
        uid: if o.preserve_uid {
            e.uid
        } else {
            dec.prev_uid
        },
        gid: if o.preserve_gid {
            e.gid
        } else {
            dec.prev_gid
        },
        rdev: if sends_rdev(e.mode, o) {
            e.rdev
        } else {
            0
        },
        link_target: if sends_link(e.mode, o) {
            e.link_target
        } else {
            Seq::empty()
        },
        checksum: if sends_checksum(e.mode, o) {
            fitted(e.checksum, o.checksum_len as nat)
        } else {
            Seq::empty()
        },
        flags: wire_flags(entry_flags(e, enc, o, act), o),
        user_name: if user_follows(e, enc, o) {
            e.user_name
        } else {
            dec.prev_user_name
        },
        group_name: if group_follows(e, enc, o) {
            e.group_name
        } else {
            dec.prev_group_name
        },
        hlink_source: None,
        hard_link_info: None,
    }
}

/// Each flag of a combination can be read off it.
proof fn flag_bits(
    b0: bool,
    b1: bool,
    b2: bool,
    b3: bool,
    b4: bool,
    b5: bool,
    b6: bool,
    b7: bool,
    b8: bool,
    b9: bool,
    b10: bool,
    b11: bool,
    b12: bool,
    b13: bool,
    f: u32,
)
    by (bit_vector)
    requires
        f == (if b0 { 0x1u32 } else { 0u32 }) | (if b1 { 0x2u32 } else { 0u32 }) | (if b2 {
            0x4u32
        } else { 0u32 }) | (if b3 { 0x8u32 } else { 0u32 }) | (if b4 { 0x10u32 } else { 0u32 }) | (
        if b5 { 0x20u32 } else { 0u32 }) | (if b6 { 0x40u32 } else { 0u32 }) | (if b7 {
            0x80u32
        } else { 0u32 }) | (if b8 { 0x100u32 } else { 0u32 }) | (if b9 {
            0x200u32
        } else { 0u32 }) | (if b10 { 0x400u32 } else { 0u32 }) | (if b11 {
            0x800u32
        } else { 0u32 }) | (if b12 { 0x1000u32 } else { 0u32 }) | (if b13 {
            0x2000u32
        } else { 0u32 }),
    ensures
        f < 0x4000,
        (f & 0x1 != 0) == b0,
        (f & 0x2 != 0) == b1,
        (f & 0x4 != 0) == b2,
        (f & 0x8 != 0) == b3,
        (f & 0x10 != 0) == b4,
        (f & 0x20 != 0) == b5,
        (f & 0x40 != 0) == b6,
        (f & 0x80 != 0) == b7,
        (f & 0x100 != 0) == b8,
        (f & 0x200 != 0) == b9,
        (f & 0x400 != 0) == b10,
        (f & 0x800 != 0) == b11,
        (f & 0x1000 != 0) == b12,
        (f & 0x2000 != 0) == b13,
        !b8 && !b9 && !b10 && !b11 && !b12 && !b13 ==> f < 0x100,
        f == 0x1000 ==> b12 && !b9,
{
}

/// The flags of an entry say what they stand for.
proof fn entry_flags_meaning(
    e: EntryView,
    st: DeltaView,
    o: FileListOptions,
    act: HardLinkAction,
)
    requires
        act == HardLinkAction::NotHardLinked || o.protocol_version >= 28,
    ensures
        ({
            let f = entry_flags(e, st, o, act);
            let pv = o.protocol_version;
            let prefix = common_prefix(st.prev_name, e.name);
            let rdev = sends_rdev(e.mode, o);
            &&& sendable_flags(f, o)
            &&& has_flag(f, XMIT_TOP_DIR) == has_flag(e.flags, XMIT_TOP_DIR)
            &&& has_flag(f, XMIT_SAME_MODE) == (e.mode == st.prev_mode)
            &&& has_flag(f, XMIT_SAME_RDEV_PRE28) == (rdev && pv < 28 && e.rdev == st.prev_rdev)
            &&& has_flag(f, XMIT_SAME_UID) == (o.preserve_uid && e.uid == st.prev_uid)
            &&& has_flag(f, XMIT_SAME_GID) == (o.preserve_gid && e.gid == st.prev_gid)
            &&& has_flag(f, XMIT_SAME_NAME) == (prefix > 0)
            &&& has_flag(f, XMIT_LONG_NAME) == (e.name.len() - prefix > 255)
            &&& has_flag(f, XMIT_SAME_TIME) == (e.mtime == st.prev_mtime)
            &&& has_flag(f, XMIT_SAME_RDEV_MAJOR) == (rdev && pv >= 28 && rdev_major_of(e.rdev)
                == st.prev_rdev_major)
            &&& has_flag(f, XMIT_HLINKED) == (act != HardLinkAction::NotHardLinked)
            &&& has_flag(f, XMIT_USER_NAME_FOLLOWS) == user_follows(e, st, o)
            &&& has_flag(f, XMIT_GROUP_NAME_FOLLOWS) == group_follows(e, st, o)
            &&& has_flag(f, XMIT_HLINK_FIRST) == (act == HardLinkAction::FirstOccurrence)
            &&& has_flag(f, XMIT_MOD_NSEC) == (pv >= 31 && e.mtime_nsec != 0)
        }),
{
    let pv = o.protocol_version;
    let prefix = common_prefix(st.prev_name, e.name);
    let rdev = sends_rdev(e.mode, o);
    flag_bits(
        has_flag(e.flags, XMIT_TOP_DIR),
        e.mode == st.prev_mode,
        rdev && pv < 28 && e.rdev == st.prev_rdev,
        o.preserve_uid && e.uid == st.prev_uid,
        o.preserve_gid && e.gid == st.prev_gid,
        prefix > 0,
        e.name.len() - prefix > 255,
        e.mtime == st.prev_mtime,
        rdev && pv >= 28 && rdev_major_of(e.rdev) == st.prev_rdev_major,
        act != HardLinkAction::NotHardLinked,
        user_follows(e, st, o),
        group_follows(e, st, o),
        act == HardLinkAction::FirstOccurrence,
        pv >= 31 && e.mtime_nsec != 0,
        entry_flags(e, st, o, act),
    );
}

/// What the flags say survives being sent.
proof fn sent_flags_meaning(flags: u32, o: FileListOptions)
    requires
        sendable_flags(flags, o),
    ensures
        ({
            let w = wire_flags(flags, o);
            &&& has_flag(w, XMIT_SAME_MODE) == has_flag(flags, XMIT_SAME_MODE)
            &&& o.protocol_version < 28 && !o.xfer_flags_as_varint ==> has_flag(
                w,
                XMIT_SAME_RDEV_PRE28,
            ) == has_flag(flags, XMIT_SAME_RDEV_PRE28)
            &&& has_flag(w, XMIT_SAME_UID) == has_flag(flags, XMIT_SAME_UID)
            &&& has_flag(w, XMIT_SAME_GID) == has_flag(flags, XMIT_SAME_GID)
            &&& has_flag(w, XMIT_SAME_NAME) == has_flag(flags, XMIT_SAME_NAME)
            &&& has_flag(w, XMIT_LONG_NAME) == has_flag(flags, XMIT_LONG_NAME)
            &&& has_flag(w, XMIT_SAME_TIME) == has_flag(flags, XMIT_SAME_TIME)
            &&& has_flag(w, XMIT_SAME_RDEV_MAJOR) == has_flag(flags, XMIT_SAME_RDEV_MAJOR)
            &&& has_flag(w, XMIT_HLINKED) == has_flag(flags, XMIT_HLINKED)
            &&& has_flag(w, XMIT_USER_NAME_FOLLOWS) == has_flag(flags, XMIT_USER_NAME_FOLLOWS)
            &&& has_flag(w, XMIT_GROUP_NAME_FOLLOWS) == has_flag(flags, XMIT_GROUP_NAME_FOLLOWS)
            &&& has_flag(w, XMIT_HLINK_FIRST) == has_flag(flags, XMIT_HLINK_FIRST)
            &&& has_flag(w, XMIT_MOD_NSEC) == has_flag(flags, XMIT_MOD_NSEC)
        }),
{
    assert(0x2u32 & 5 == 0 && 0x8u32 & 5 == 0 && 0x10u32 & 5 == 0 && 0x20u32 & 5 == 0 && 0x40u32
        & 5 == 0 && 0x80u32 & 5 == 0 && 0x100u32 & 5 == 0 && 0x200u32 & 5 == 0 && 0x400u32 & 5 == 0
        && 0x800u32 & 5 == 0 && 0x1000u32 & 5 == 0 && 0x2000u32 & 5 == 0) by (bit_vector);
    wire_flags_keep(flags, o, XMIT_SAME_MODE);
    wire_flags_keep(flags, o, XMIT_SAME_UID);
    wire_flags_keep(flags, o, XMIT_SAME_GID);
    wire_flags_keep(flags, o, XMIT_SAME_NAME);
    wire_flags_keep(flags, o, XMIT_LONG_NAME);
    wire_flags_keep(flags, o, XMIT_SAME_TIME);
    wire_flags_keep(flags, o, XMIT_SAME_RDEV_MAJOR);
    wire_flags_keep(flags, o, XMIT_HLINKED);
    wire_flags_keep(flags, o, XMIT_USER_NAME_FOLLOWS);
    wire_flags_keep(flags, o, XMIT_GROUP_NAME_FOLLOWS);
    wire_flags_keep(flags, o, XMIT_HLINK_FIRST);
    wire_flags_keep(flags, o, XMIT_MOD_NSEC);
    assert(flags < 0x100 ==> flags & 0xFF == flags) by (bit_vector);
    assert(1u32 & 4 == 0 && 0u32 & 4 == 0) by (bit_vector);
}

/// What a reader has of an entry once it has read up to the mode.
spec fn received_head(
    e: EntryView,
    enc: DeltaView,
    o: FileListOptions,
    act: HardLinkAction,
) -> EntryView {
    EntryView {
        len: e.len,
        mtime: e.mtime,
        mtime_nsec: if o.protocol_version >= 31 {
            e.mtime_nsec
        } else {
            0
        },
        mode: e.mode,
        flags: wire_flags(entry_flags(e, enc, o, act), o),
        ..crate::filelist::entry::empty_entry(e.name)
    }
}

/// Length, times and mode are read back.
proof fn head_read_back(
    s: Seq<u8>,
    p: int,
    e: EntryView,
    enc: DeltaView,
    dec: DeltaView,
    o: FileListOptions,
    act: HardLinkAction,
)
    requires
        holds_at(s, p, head_bytes(e, enc, o)),
        o.wf(),
        in_step(enc, dec, o),
        sendable(e, enc, dec, o),
        act == HardLinkAction::NotHardLinked || o.protocol_version >= 28,
    ensures
        ({
            let f = wire_flags(entry_flags(e, enc, o, act), o);
            body_at(s, p, f, e.name, dec, o) == tail_at(
                s,
                p + head_bytes(e, enc, o).len(),
                f,
                received_head(e, enc, o, act),
                dec,
                o,
            )
        }),
{
    let pv = o.protocol_version;
    let f0 = entry_flags(e, enc, o, act);
    let f = wire_flags(f0, o);
    entry_flags_meaning(e, enc, o, act);
    sent_flags_meaning(f0, o);
    let t1 = varlong30_bytes(e.len, 3, pv);
    let t2 = mtime_bytes(e.mtime, e.mtime == enc.prev_mtime, pv);
    let t3 = nsec_bytes(e.mtime_nsec, pv);
    let t4 = mode_bytes(e.mode, e.mode == enc.prev_mode);
    let p1 = p + t1.len();
    let p2 = p1 + t2.len();
    let p3 = p2 + t3.len();
    holds_split(s, p, t1, t2 + (t3 + t4));
    holds_split(s, p1, t2, t3 + t4);
    holds_split(s, p2, t3, t4);
    varlong30_read_back(s, p, e.len, 3, pv);
    mtime_read_back(s, p1, e.mtime, dec.prev_mtime, e.mtime == enc.prev_mtime, f, pv);
    nsec_read_back(s, p2, e.mtime_nsec, f, pv);
    mode_read_back(s, p3, e.mode, dec.prev_mode, e.mode == enc.prev_mode, f);
}

/// Owner and group are read back, by flags that say how they were sent.
proof fn owners_read_back(
    s: Seq<u8>,
    p: int,
    e: EntryView,
    head: EntryView,
    enc: DeltaView,
    dec: DeltaView,
    o: FileListOptions,
    f: u32,
)
    requires
        holds_at(s, p, owners_bytes(e, enc, o)),
        in_step(enc, dec, o),
        sendable(e, enc, dec, o),
        has_flag(f, XMIT_SAME_UID) == (o.preserve_uid && e.uid == enc.prev_uid),
        has_flag(f, XMIT_SAME_GID) == (o.preserve_gid && e.gid == enc.prev_gid),
        has_flag(f, XMIT_USER_NAME_FOLLOWS) == user_follows(e, enc, o),
        has_flag(f, XMIT_GROUP_NAME_FOLLOWS) == group_follows(e, enc, o),
    ensures
        tail_at(s, p, f, head, dec, o) == special_at(
            s,
            p + owners_bytes(e, enc, o).len(),
            f,
            received_owners(e, head, enc, dec, o),
            dec,
            o,
        ),
{
    let pv = o.protocol_version;
    let su = o.preserve_uid && e.uid != enc.prev_uid;
    let sg = o.preserve_gid && e.gid != enc.prev_gid;
    let uf = user_follows(e, enc, o);
    let gf = group_follows(e, enc, o);
    let t5 = owner_bytes(su, e.uid, e.user_name, uf, pv);
    let t6 = owner_bytes(sg, e.gid, e.group_name, gf, pv);
    holds_split(s, p, t5, t6);
    owner_read_back(s, p, su, uf, e.uid, e.user_name, dec.prev_uid, dec.prev_user_name, pv);
    owner_read_back(
        s,
        p + t5.len(),
        sg,
        gf,
        e.gid,
        e.group_name,
        dec.prev_gid,
        dec.prev_group_name,
        pv,
    );
}

/// Device number, link target and checksum are read back, by flags that say
/// how they were sent.
proof fn special_read_back(
    s: Seq<u8>,
    p: int,
    e: EntryView,
    head: EntryView,
    enc: DeltaView,
    dec: DeltaView,
    o: FileListOptions,
    f: u32,
)
    requires
        holds_at(s, p, special_bytes(e, enc, o)),
        sendable(e, enc, dec, o),
        head.mode == e.mode,
        has_flag(f, XMIT_RDEV_MINOR_8_PRE30) == group_follows(e, enc, o),
        sends_rdev(e.mode, o) && o.protocol_version < 28 ==> has_flag(f, XMIT_SAME_RDEV_PRE28) == (
        e.rdev == enc.prev_rdev),
        sends_rdev(e.mode, o) && o.protocol_version >= 28 ==> has_flag(f, XMIT_SAME_RDEV_MAJOR)
            == (rdev_major_of(e.rdev) == enc.prev_rdev_major),
    ensures
        special_at(s, p, f, head, dec, o) == Ok::<(EntryView, int), ProtocolErrorView>(
            (received_special(e, head, o), p + special_bytes(e, enc, o).len()),
        ),
{
    let pv = o.protocol_version;
    let rdev = sends_rdev(e.mode, o);
    let same = e.rdev == enc.prev_rdev;
    let same_major = rdev_major_of(e.rdev) == enc.prev_rdev_major;
    let sl = sends_link(e.mode, o);
    let sc = sends_checksum(e.mode, o);
    let t7 = rdev_bytes(rdev, e.rdev, same, same_major, pv);
    let t8 = link_bytes(sl, e.link_target, pv);
    let t9 = checksum_bytes(sc, e.checksum, o.checksum_len as nat);
    let p7 = p + t7.len();
    let p8 = p7 + t8.len();
    holds_split(s, p, t7, t8 + t9);
    holds_split(s, p7, t8, t9);
    rdev_read_back(
        s,
        p,
        rdev,
        e.rdev,
        same,
        same_major,
        f,
        dec.prev_rdev,
        dec.prev_rdev_major,
        pv,
    );
    link_read_back(s, p7, sl, e.link_target, pv);
    checksum_read_back(s, p8, sc, e.checksum, o.checksum_len as nat);
}

/// What a reader has once it has read owner and group.
spec fn received_owners(
    e: EntryView,
    head: EntryView,
    enc: DeltaView,
    dec: DeltaView,
    o: FileListOptions,
) -> EntryView {
    EntryView {
        uid: if o.preserve_uid {
            e.uid
        } else {
            dec.prev_uid
        },
        gid: if o.preserve_gid {
            e.gid
        } else {
            dec.prev_gid
        },
        user_name: if user_follows(e, enc, o) {
            e.user_name
        } else {
            dec.prev_user_name
        },
        group_name: if group_follows(e, enc, o) {
            e.group_name
        } else {
            dec.prev_group_name
        },
        ..head
    }
}

/// What a reader has once it has read device number, link target and checksum.
spec fn received_special(e: EntryView, head: EntryView, o: FileListOptions) -> EntryView {
    EntryView {
        rdev: if sends_rdev(e.mode, o) {
            e.rdev
        } else {
            0
        },
        link_target: if sends_link(e.mode, o) {
            e.link_target
        } else {
            Seq::empty()
        },
        checksum: if sends_checksum(e.mode, o) {
            fitted(e.checksum, o.checksum_len as nat)
        } else {
            Seq::empty()
        },
        ..head
    }
}

/// What is sent of an entry is what is received.
///
/// An entry that fits the wire format and is not an abbreviated duplicate is
/// read back from its bytes, wherever they stand in a stream, by a reader
/// that is in step with the writer; and the reader ends behind them.
pub proof fn entry_read_back(
    s: Seq<u8>,
    p: int,
    e: EntryView,
    enc: DeltaView,
    dec: DeltaView,
    o: FileListOptions,
    act: HardLinkAction,
    prev: Seq<EntryView>,
)
    requires
        holds_at(s, p, entry_bytes(e, enc, o, act)),
        o.wf(),
        in_step(enc, dec, o),
        sendable(e, enc, dec, o),
        !(act is DuplicateOf),
        act == HardLinkAction::NotHardLinked || o.protocol_version >= 28,
    ensures
        record_at(s, p, dec, o, prev) == Ok::<(RecordView, int), ProtocolErrorView>(
            (
                RecordView::Entry(received(e, enc, dec, o, act), None),
                p + entry_bytes(e, enc, o, act).len(),
            ),
        ),
        in_step(enc.after(e), dec.after(received(e, enc, dec, o, act)), o),
{
    let pv = o.protocol_version;
    let f0 = entry_flags(e, enc, o, act);
    let f = wire_flags(f0, o);
    entry_flags_meaning(e, enc, o, act);
    sent_flags_meaning(f0, o);
    let a = flags_bytes(f0, o);
    let b = name_bytes(e.name, enc.prev_name, pv);
    let c = body_bytes(e, enc, o);
    assert(hlink_bytes(act) + c =~= c);
    assert(entry_bytes(e, enc, o, act) == a + (b + c));
    holds_split(s, p, a, b + c);
    holds_split(s, p + a.len(), b, c);
    flags_read_back(s, p, f0, o);
    name_read_back(s, p + a.len(), e.name, enc.prev_name, f, pv);
    let q = p + a.len() + b.len();
    let h = head_bytes(e, enc, o);
    let ow = owners_bytes(e, enc, o);
    let sp = special_bytes(e, enc, o);
    holds_split(s, q, h, ow + sp);
    holds_split(s, q + h.len(), ow, sp);
    head_read_back(s, q, e, enc, dec, o, act);
    let head = received_head(e, enc, o, act);
    owners_read_back(s, q + h.len(), e, head, enc, dec, o, f);
    let owned = received_owners(e, head, enc, dec, o);
    special_read_back(s, q + h.len() + ow.len(), e, owned, enc, dec, o, f);
    assert(received_special(e, owned, o) == received(e, enc, dec, o, act));
}

/// An abbreviated duplicate is read back as the entry it refers to, under its
/// own name.
pub proof fn duplicate_read_back(
    s: Seq<u8>,
    p: int,
    e: EntryView,
    enc: DeltaView,
    dec: DeltaView,
    o: FileListOptions,
    first: i32,
    prev: Seq<EntryView>,
)
    requires
        holds_at(s, p, entry_bytes(e, enc, o, HardLinkAction::DuplicateOf(first))),
        o.wf(),
        o.protocol_version >= 28,
        o.preserve_hard_links,
        in_step(enc, dec, o),
        e.name.len() <= MAX_NAME_LEN,
        0 <= first - dec.ndx_start < prev.len(),
    ensures
        ({
            let act = HardLinkAction::DuplicateOf(first);
            let f = wire_flags(entry_flags(e, enc, o, act), o);
            record_at(s, p, dec, o, prev) == Ok::<(RecordView, int), ProtocolErrorView>(
                (
                    RecordView::Entry(
                        linked_entry(prev[first - dec.ndx_start], e.name, f),
                        Some(first),
                    ),
                    p + entry_bytes(e, enc, o, act).len(),
                ),
            )
        }),
{
    let act = HardLinkAction::DuplicateOf(first);
    let pv = o.protocol_version;
    let f0 = entry_flags(e, enc, o, act);
    let f = wire_flags(f0, o);
    entry_flags_meaning(e, enc, o, act);
    sent_flags_meaning(f0, o);
    let a = flags_bytes(f0, o);
    let b = name_bytes(e.name, enc.prev_name, pv);
    let c = hlink_bytes(act);
    assert(c + Seq::<u8>::empty() =~= c);
    assert(entry_bytes(e, enc, o, act) == a + (b + c));
    holds_split(s, p, a, b + c);
    holds_split(s, p + a.len(), b, c);
    flags_read_back(s, p, f0, o);
    name_read_back(s, p + a.len(), e.name, enc.prev_name, f, pv);
    varint_read_back(s, p + a.len() + b.len(), u32_of(first) as u32);
}

} // verus!
