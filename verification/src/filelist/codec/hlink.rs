//! Hard-link encoding and decoding.
//!
//! The encoder side tracks (dev, ino) pairs to detect duplicate inodes; the
//! decoder side maps flist indices to resolve back-references.

use std::collections::HashMap;

use vstd::prelude::*;

use crate::error::{ProtocolError, ProtocolErrorView};
use crate::filelist::codec::options::FileListOptions;
use crate::filelist::codec::state::{update_delta_state, DeltaState};
use crate::filelist::entry::{copy_bytes, entry_views, EntryView, FileEntry};
use crate::filelist::xmit::{has_flag, XMIT_HLINKED, XMIT_HLINK_FIRST};
use crate::protocol::varint::{
    as_i32, as_u32, i32_of, read_varint, u32_of, varint_at, varint_bytes, write_varint,
};
use crate::protocol::wire::WireReader;

pub use crate::filelist::entry::HardLinkInfo;

verus! {

broadcast use vstd::std_specs::hash::group_hash_axioms;

/// What to do with a file during hard-link encoding.
#[derive(Debug, Clone, Copy, PartialEq, Eq, Structural)]
pub enum HardLinkAction {
    /// File is not a hard-link candidate (nlink <= 1).
    NotHardLinked,
    /// First occurrence of this dev+ino pair in the flist.
    FirstOccurrence,
    /// Duplicate of an earlier entry at the given flist index.
    DuplicateOf(i32),
}

// ---------------------------------------------------------------------------
// Encoder state
// ---------------------------------------------------------------------------

/// A device and an inode number as one key.
pub open spec fn link_key(dev: u64, ino: u64) -> u128 {
    (dev * 0x1_0000_0000_0000_0000 + ino) as u128
}

/// Different files have different keys.
pub proof fn link_key_is_unique(dev1: u64, ino1: u64, dev2: u64, ino2: u64)
    requires
        link_key(dev1, ino1) == link_key(dev2, ino2),
    ensures
        dev1 == dev2,
        ino1 == ino2,
{
}

pub(crate) fn make_link_key(dev: u64, ino: u64) -> (r: u128)
    ensures
        r == link_key(dev, ino),
{
    dev as u128 * 0x1_0000_0000_0000_0000u128 + ino as u128
}

/// Encoder-side state for hard-link deduplication: which (dev, ino) pairs
/// have been seen, and at which flist index.
#[derive(Debug)]
pub struct HardLinkEncoder {
    seen: HashMap<u128, i32>,
}

impl View for HardLinkEncoder {
    type V = Map<u128, i32>;

    closed spec fn view(&self) -> Map<u128, i32> {
        self.seen@
    }
}

/// What the encoder does with a file, given what it has seen.
pub open spec fn link_action(seen: Map<u128, i32>, info: HardLinkInfo) -> HardLinkAction {
    if info.nlink <= 1 {
        HardLinkAction::NotHardLinked
    } else if seen.dom().contains(link_key(info.dev, info.ino)) {
        HardLinkAction::DuplicateOf(seen[link_key(info.dev, info.ino)])
    } else {
        HardLinkAction::FirstOccurrence
    }
}

/// What the encoder has seen after a file.
pub open spec fn seen_after(seen: Map<u128, i32>, info: HardLinkInfo, index: i32) -> Map<
    u128,
    i32,
> {
    if link_action(seen, info) == HardLinkAction::FirstOccurrence {
        seen.insert(link_key(info.dev, info.ino), index)
    } else {
        seen
    }
}

impl HardLinkEncoder {
    /// An encoder that has seen nothing.
    pub fn new() -> (r: Self)
        ensures
            r@ == Map::<u128, i32>::empty(),
    {
        HardLinkEncoder { seen: HashMap::new() }
    }

    /// Check if this file is a hard-link duplicate.
    pub fn check(&mut self, info: &HardLinkInfo, index: i32) -> (r: HardLinkAction)
        ensures
            r == link_action(old(self)@, *info),
            final(self)@ == seen_after(old(self)@, *info, index),
    {
        if info.nlink <= 1 {
            return HardLinkAction::NotHardLinked;
        }
        let key = make_link_key(info.dev, info.ino);
        match self.seen.get(&key) {
            Some(first_index) => HardLinkAction::DuplicateOf(*first_index),
            None => {
                self.seen.insert(key, index);
                HardLinkAction::FirstOccurrence
            },
        }
    }
}

impl Default for HardLinkEncoder {
    fn default() -> (r: Self)
        ensures
            r@ == Map::<u128, i32>::empty(),
    {
        HardLinkEncoder::new()
    }
}

// ---------------------------------------------------------------------------
// Decoder state
// ---------------------------------------------------------------------------

/// Decoder-side state for hard-link resolution: maps flist indices of
/// duplicate entries to their first occurrence.
#[derive(Debug)]
pub struct HardLinkDecoder {
    groups: HashMap<i32, i32>,
    order: Vec<i32>,
}

impl View for HardLinkDecoder {
    type V = Map<i32, i32>;

    closed spec fn view(&self) -> Map<i32, i32> {
        self.groups@
    }
}

impl HardLinkDecoder {
    /// The recorded indices are listed once each.
    #[verifier::type_invariant]
    closed spec fn wf(self) -> bool {
        &&& self.order@.no_duplicates()
        &&& forall|k: i32| self.groups@.dom().contains(k) == self.order@.contains(k)
    }

    /// A decoder with nothing recorded.
    pub fn new() -> (r: Self)
        ensures
            r@ == Map::<i32, i32>::empty(),
    {
        HardLinkDecoder { groups: HashMap::new(), order: Vec::new() }
    }

    /// Record a duplicate hard-link entry.
    pub fn record_duplicate(&mut self, entry_index: i32, first_index: i32)
        ensures
            final(self)@ == old(self)@.insert(entry_index, first_index),
    {
        proof {
            use_type_invariant(&*self);
        }
        let mut taken = HardLinkDecoder::new();
        std::mem::swap(self, &mut taken);
        let HardLinkDecoder { mut groups, mut order } = taken;
        let ghost before = order@;
        let ghost known = groups@;
        if !groups.contains_key(&entry_index) {
            assert(!before.contains(entry_index));
            order.push(entry_index);
            proof {
                assert forall|a: int, b: int| 0 <= a < order@.len() && 0 <= b < order@.len() && a
                    != b implies order@[a] != order@[b] by {
                    if a < before.len() {
                        assert(before.contains(before[a]));
                    }
                    if b < before.len() {
                        assert(before.contains(before[b]));
                    }
                }
                assert(order@.no_duplicates());
                assert forall|k: i32| order@.contains(k) == (before.contains(k) || k
                    == entry_index) by {
                    if before.contains(k) {
                        let i = choose|i: int| 0 <= i < before.len() && before[i] == k;
                        assert(order@[i] == k);
                    }
                    if k == entry_index {
                        assert(order@[before.len() as int] == k);
                    }
                }
            }
        }
        groups.insert(entry_index, first_index);
        assert forall|k: i32| groups@.dom().contains(k) == order@.contains(k) by {
            assert(known.dom().contains(k) == before.contains(k));
            assert(known.dom().contains(entry_index) == before.contains(entry_index));
        }
        *self = HardLinkDecoder { groups, order };
    }

    /// Get the first occurrence index for a duplicate entry.
    pub fn first_index(&self, entry_index: i32) -> (r: Option<i32>)
        ensures
            r == (if self@.dom().contains(entry_index) {
                Some(self@[entry_index])
            } else {
                None
            }),
    {
        match self.groups.get(&entry_index) {
            Some(v) => Some(*v),
            None => None,
        }
    }

    /// All (duplicate_index, first_index) pairs, each once.
    pub fn duplicates(&self) -> (r: Vec<(i32, i32)>)
        ensures
            forall|i: int|
                0 <= i < r.len() ==> self@.dom().contains((#[trigger] r@[i]).0) && self@[r@[i].0]
                    == r@[i].1,
            forall|k: i32| #[trigger]
                self@.dom().contains(k) ==> r@.contains((k, self@[k])),
            r@.no_duplicates(),
    {
        proof {
            use_type_invariant(&*self);
        }
        let mut out: Vec<(i32, i32)> = Vec::new();
        let mut i: usize = 0;
        while i < self.order.len()
            invariant
                i <= self.order.len(),
                out.len() == i,
                self.order@.no_duplicates(),
                forall|k: i32| self.groups@.dom().contains(k) == self.order@.contains(k),
                forall|j: int|
                    0 <= j < i ==> (#[trigger] out@[j]).0 == self.order@[j]
                        && self.groups@.dom().contains(out@[j].0) && out@[j].1
                        == self.groups@[out@[j].0],
            decreases self.order.len() - i,
        {
            let k: i32 = self.order[i];
            assert(self.order@.contains(k));
            match self.groups.get(&k) {
                Some(v) => {
                    out.push((k, *v));
                },
                None => {},
            }
            i += 1;
        }
        assert forall|k: i32| #[trigger] self@.dom().contains(k) implies out@.contains(
            (k, self@[k]),
        ) by {
            assert(self.order@.contains(k));
            let j = choose|j: int| 0 <= j < self.order@.len() && self.order@[j] == k;
            assert(out@[j] == (k, self@[k]));
        }
        assert(out@.no_duplicates()) by {
            assert forall|a: int, b: int| 0 <= a < out@.len() && 0 <= b < out@.len() && a
                != b implies out@[a] != out@[b] by {
                assert(out@[a].0 == self.order@[a]);
                assert(out@[b].0 == self.order@[b]);
            }
        }
        out
    }
}

impl Default for HardLinkDecoder {
    fn default() -> (r: Self)
        ensures
            r@ == Map::<i32, i32>::empty(),
    {
        HardLinkDecoder::new()
    }
}

// ---------------------------------------------------------------------------
// Resolve hard-link action from options + info
// ---------------------------------------------------------------------------

/// The hard-link action for an entry.
pub open spec fn resolved_action(
    opts: FileListOptions,
    info: Option<HardLinkInfo>,
    seen: Map<u128, i32>,
) -> HardLinkAction {
    match info {
        Some(i) if opts.preserve_hard_links => link_action(seen, i),
        _ => HardLinkAction::NotHardLinked,
    }
}

/// What the encoder has seen after an entry.
pub open spec fn resolved_seen(
    opts: FileListOptions,
    info: Option<HardLinkInfo>,
    seen: Map<u128, i32>,
    index: i32,
) -> Map<u128, i32> {
    match info {
        Some(i) if opts.preserve_hard_links => seen_after(seen, i, index),
        _ => seen,
    }
}

/// The information behind an optional reference.
pub open spec fn info_of(info: Option<&HardLinkInfo>) -> Option<HardLinkInfo> {
    match info {
        Some(i) => Some(*i),
        None => None,
    }
}

/// Determine the hard-link action for an entry.
pub fn resolve_hlink_action(
    opts: &FileListOptions,
    hlink_info: Option<&HardLinkInfo>,
    hlink_encoder: &mut HardLinkEncoder,
    entry_index: i32,
) -> (r: HardLinkAction)
    ensures
        r == resolved_action(*opts, info_of(hlink_info), old(hlink_encoder)@),
        final(hlink_encoder)@ == resolved_seen(
            *opts,
            info_of(hlink_info),
            old(hlink_encoder)@,
            entry_index,
        ),
{
    if opts.preserve_hard_links {
        if let Some(info) = hlink_info {
            return hlink_encoder.check(info, entry_index);
        }
    }
    HardLinkAction::NotHardLinked
}

// ---------------------------------------------------------------------------
// Encode hard-link back-reference
// ---------------------------------------------------------------------------

/// Result of encoding a hard-link field.
#[derive(Debug, Clone, Copy, PartialEq, Eq, Structural)]
pub enum HlinkEncodeResult {
    /// Not a duplicate -- continue encoding remaining fields.
    Continue,
    /// Duplicate entry was fully written -- nothing more follows.
    Abbreviated,
}

/// The bytes of the back-reference field.
pub open spec fn hlink_bytes(action: HardLinkAction) -> Seq<u8> {
    match action {
        HardLinkAction::DuplicateOf(first) => varint_bytes(u32_of(first) as u32),
        _ => Seq::empty(),
    }
}

/// Encode the hard-link back-reference field.
///
/// For `DuplicateOf`: writes the first occurrence's flist index as a varint
/// and returns `Abbreviated`; remaining metadata fields are not sent.
///
/// For `FirstOccurrence` no bytes are written: the flag alone signals the
/// first occurrence. For `NotHardLinked` no bytes are written either.
pub fn encode_hlink(w: &mut Vec<u8>, hlink_action: &HardLinkAction) -> (r: HlinkEncodeResult)
    ensures
        final(w)@ == old(w)@ + hlink_bytes(*hlink_action),
        r == (if *hlink_action is DuplicateOf {
            HlinkEncodeResult::Abbreviated
        } else {
            HlinkEncodeResult::Continue
        }),
{
    match hlink_action {
        HardLinkAction::DuplicateOf(first_ndx) => {
            write_varint(w, as_u32(*first_ndx));
            HlinkEncodeResult::Abbreviated
        },
        _ => {
            assert(w@ =~= old(w)@ + hlink_bytes(*hlink_action));
            HlinkEncodeResult::Continue
        },
    }
}

// ---------------------------------------------------------------------------
// Decode hard-link back-reference
// ---------------------------------------------------------------------------

/// Result of decoding a hard-link field.
#[derive(Debug)]
pub enum HlinkDecodeResult {
    /// Not a hard-link duplicate -- continue decoding remaining fields.
    Continue,
    /// Duplicate entry cloned from a previous entry.
    Abbreviated(FileEntry),
}

/// Whether an entry's flags announce a back-reference.
pub open spec fn is_back_reference(flags: u32, opts: FileListOptions) -> bool {
    opts.preserve_hard_links && has_flag(flags, XMIT_HLINKED) && !has_flag(flags, XMIT_HLINK_FIRST)
}

/// A duplicate of an entry under another name.
pub open spec fn linked_entry(first: EntryView, name: Seq<u8>, flags: u32) -> EntryView {
    EntryView { name, flags, hlink_source: Some(first.name), ..first }
}

/// The hard-link field at a position: an entry that it completes, with the
/// index it refers to, or nothing; and the position behind it.
pub open spec fn hlink_at(
    s: Seq<u8>,
    p: int,
    flags: u32,
    opts: FileListOptions,
    prev: Seq<EntryView>,
    name: Seq<u8>,
    ndx_start: i32,
) -> Result<(Option<(EntryView, i32)>, int), ProtocolErrorView> {
    if !is_back_reference(flags, opts) {
        Ok((None, p))
    } else {
        match varint_at(s, p) {
            Ok((v, q)) => {
                let first = i32_of(v as nat);
                let local = first - ndx_start;
                if 0 <= local < prev.len() {
                    Ok((Some((linked_entry(prev[local], name, flags), first)), q))
                } else {
                    Ok((None, q))
                }
            },
            Err(e) => Err(e),
        }
    }
}

/// Decode the hard-link back-reference field.
///
/// If the entry is a hard-link duplicate (HLINKED but not HLINK_FIRST),
/// reads the back-reference varint. If the first occurrence is in
/// `prev_entries` (same sub-flist), clones its metadata and returns
/// `Abbreviated`. Otherwise all fields follow on the wire (cross-sub-flist
/// duplicate with full metadata).
///
/// If it is the first occurrence (HLINKED + HLINK_FIRST), or not hard-linked
/// at all, returns `Continue` with no bytes read.
pub fn decode_hlink(
    r: &mut WireReader,
    flags: u32,
    opts: &FileListOptions,
    hlink_decoder: &mut HardLinkDecoder,
    prev_entries: &[FileEntry],
    name: &[u8],
    state: &mut DeltaState,
) -> (res: Result<HlinkDecodeResult, ProtocolError>)
    requires
        old(r).wf(),
        prev_entries.len() <= i32::MAX,
    ensures
        final(r).wf(),
        final(r).buf@ == old(r).buf@,
        match hlink_at(
            old(r).buf@,
            old(r).pos as int,
            flags,
            *opts,
            entry_views(prev_entries@),
            name@,
            old(state).ndx_start,
        ) {
            Ok((Some((e, first)), p)) => {
                &&& res is Ok
                &&& res->Ok_0 is Abbreviated
                &&& res->Ok_0->Abbreviated_0@ == e
                &&& final(r).pos == p
                &&& final(state)@ == old(state)@.after(e)
                &&& final(hlink_decoder)@ == old(hlink_decoder)@.insert(
                    prev_entries.len() as i32,
                    first,
                )
            },
            Ok((None, p)) => {
                &&& res is Ok
                &&& res->Ok_0 is Continue
                &&& final(r).pos == p
                &&& *final(state) == *old(state)
                &&& final(hlink_decoder)@ == old(hlink_decoder)@
            },
            Err(f) => {
                &&& res is Err
                &&& res->Err_0@ == f
                &&& *final(state) == *old(state)
                &&& final(hlink_decoder)@ == old(hlink_decoder)@
            },
        },
{
    if !opts.preserve_hard_links || flags & XMIT_HLINKED == 0 {
        return Ok(HlinkDecodeResult::Continue);
    }
    if flags & XMIT_HLINK_FIRST == 0 {
        // Duplicate: read the back-reference index (absolute NDX).
        let first_ndx = match read_varint(r) {
            Ok(v) => as_i32(v),
            Err(e) => {
                return Err(e);
            },
        };
        // Convert absolute NDX to local prev_entries position.
        let local: i64 = first_ndx as i64 - state.ndx_start as i64;
        if 0 <= local && local < prev_entries.len() as i64 {
            let first = &prev_entries[local as usize];
            hlink_decoder.record_duplicate(prev_entries.len() as i32, first_ndx);
            let mut entry = first.clone();
            entry.hlink_source = Some(copy_bytes(&first.name));
            entry.name = copy_bytes(name);
            entry.flags = flags;
            update_delta_state(state, &entry);
            return Ok(HlinkDecodeResult::Abbreviated(entry));
        }
    }
    Ok(HlinkDecodeResult::Continue)
}

} // verus!
