//! File lists that are sent directory by directory.
//!
//! From protocol 30 on the sender need not send the whole tree at once: it
//! sends one list per directory. A marker stands before each list but the
//! first, and a last marker says that all lists were sent.

use vstd::prelude::*;

use crate::error::{ProtocolError, ProtocolErrorView};
use crate::filelist::codec::fields::{end_bytes, write_end_of_flist};
use crate::filelist::codec::options::FileListOptions;
use crate::filelist::codec::state::{DeltaState, DeltaView};
use crate::filelist::entry::{entry_views, EntryView, FileEntry};
use crate::filelist::list::{
    entries_bytes, got_list, list_at, list_fits, list_left, list_read_back, make_no_index_left,
    no_index_left, read_entries, read_state, write_entries, ListView,
};
use crate::protocol::varint::{
    ndx_at, ndx_bytes, ndx_next, ndx_read_back, ndx_read_next, read_ndx, write_ndx, NdxState,
};
use crate::protocol::wire::{holds_at, holds_split, read_as, WireReader};

verus! {

/// The marker of the list of a directory is this less the directory's index.
pub const NDX_FLIST_OFFSET: i32 = -101;

/// The marker behind the last list.
pub const NDX_FLIST_EOF: i32 = -2;

/// A list of one directory.
#[derive(Debug)]
pub struct SubFileList {
    /// The index of the directory.
    pub dir_ndx: i32,
    /// The index of the first entry.
    pub ndx_start: i32,
    /// The entries.
    pub entries: Vec<FileEntry>,
    /// The error code at the end of the list (0 is none).
    pub io_error: i32,
}

/// What a receiver of such lists remembers.
#[derive(Debug)]
pub struct IncrementalReceiver {
    /// What was read of indices.
    pub ndx_state: NdxState,
    /// The index of the next entry.
    pub next_ndx: i32,
}

/// The list at a position, where its first entry has an index.
pub open spec fn sub_list_at(
    s: Seq<u8>,
    p: int,
    st: DeltaView,
    o: FileListOptions,
    start: i32,
) -> Result<ListView, ProtocolErrorView> {
    if start == i32::MAX {
        Err(no_index_left(start as int))
    } else {
        list_at(s, p, DeltaView { ndx_start: start, ..st }, o, Seq::empty())
    }
}

/// The entries that are read of a list, also where it cannot be read to its
/// end, and what the decoder remembers of them.
pub open spec fn sub_list_left(
    s: Seq<u8>,
    p: int,
    st: DeltaView,
    o: FileListOptions,
    start: i32,
) -> (Seq<EntryView>, DeltaView) {
    let begun = DeltaView { ndx_start: start, ..st };
    if start == i32::MAX {
        (Seq::empty(), begun)
    } else {
        list_left(s, p, begun, o, Seq::empty())
    }
}

impl IncrementalReceiver {
    /// A receiver. Where lists are exchanged directory by directory the first
    /// entry has index 1.
    pub fn new(inc_recurse: bool) -> (r: Self)
        ensures
            r.ndx_state == NdxState::initial(),
            r.next_ndx == (if inc_recurse {
                1i32
            } else {
                0i32
            }),
    {
        IncrementalReceiver {
            ndx_state: NdxState::default(),
            next_ndx: if inc_recurse {
                1
            } else {
                0
            },
        }
    }

    /// Reads the next marker.
    pub fn read_ndx_marker(&mut self, r: &mut WireReader, version: u8) -> (res: Result<
        i32,
        ProtocolError,
    >)
        requires
            old(r).wf(),
        ensures
            read_as(
                *old(r),
                *final(r),
                ndx_at(old(r).buf@, old(r).pos as int, old(self).ndx_state, version),
                res,
            ),
            final(self).next_ndx == old(self).next_ndx,
            final(self).ndx_state == (match res {
                Ok(ndx) => ndx_read_next(
                    old(r).buf@[old(r).pos as int],
                    ndx,
                    old(self).ndx_state,
                    version,
                ),
                Err(_) => old(self).ndx_state,
            }),
    {
        read_ndx(r, &mut self.ndx_state, version)
    }

    /// Reads the list of a directory that was encoded on its own.
    pub fn recv_sub_flist(
        &mut self,
        r: &mut WireReader,
        dir_ndx: i32,
        opts: &FileListOptions,
    ) -> (res: Result<SubFileList, ProtocolError>)
        requires
            old(r).wf(),
            0 <= old(self).next_ndx,
        ensures
            final(r).wf(),
            final(r).buf@ == old(r).buf@,
            final(self).ndx_state == old(self).ndx_state,
            match sub_list_at(
                old(r).buf@,
                old(r).pos as int,
                DeltaView::initial(),
                *opts,
                old(self).next_ndx,
            ) {
                Ok(l) => {
                    &&& res is Ok
                    &&& res->Ok_0.dir_ndx == dir_ndx
                    &&& res->Ok_0.ndx_start == old(self).next_ndx
                    &&& entry_views(res->Ok_0.entries@) == l.entries
                    &&& res->Ok_0.io_error == l.io_error
                    &&& final(r).pos == l.end
                    &&& final(self).next_ndx == old(self).next_ndx + l.entries.len() + 1
                },
                Err(e) => {
                    &&& res is Err
                    &&& res->Err_0@ == e
                    &&& final(self).next_ndx == old(self).next_ndx + sub_list_left(
                        old(r).buf@,
                        old(r).pos as int,
                        DeltaView::initial(),
                        *opts,
                        old(self).next_ndx,
                    ).0.len()
                },
            },
    {
        let mut delta_state = DeltaState::default();
        self.recv_sub_flist_with_state(r, dir_ndx, opts, &mut delta_state)
    }

    /// Reads the list of a directory that goes on from the lists before it.
    /// An index stays free behind each list. Entries that were read keep their
    /// indices where the list cannot be read to its end.
    pub fn recv_sub_flist_with_state(
        &mut self,
        r: &mut WireReader,
        dir_ndx: i32,
        opts: &FileListOptions,
        delta_state: &mut DeltaState,
    ) -> (res: Result<SubFileList, ProtocolError>)
        requires
            old(r).wf(),
            0 <= old(self).next_ndx,
        ensures
            final(r).wf(),
            final(r).buf@ == old(r).buf@,
            final(self).ndx_state == old(self).ndx_state,
            match sub_list_at(
                old(r).buf@,
                old(r).pos as int,
                old(delta_state)@,
                *opts,
                old(self).next_ndx,
            ) {
                Ok(l) => {
                    &&& res is Ok
                    &&& res->Ok_0.dir_ndx == dir_ndx
                    &&& res->Ok_0.ndx_start == old(self).next_ndx
                    &&& entry_views(res->Ok_0.entries@) == l.entries
                    &&& res->Ok_0.io_error == l.io_error
                    &&& final(delta_state)@ == l.state
                    &&& final(r).pos == l.end
                    &&& final(self).next_ndx == old(self).next_ndx + l.entries.len() + 1
                },
                Err(e) => {
                    &&& res is Err
                    &&& res->Err_0@ == e
                    &&& final(self).next_ndx == old(self).next_ndx + sub_list_left(
                        old(r).buf@,
                        old(r).pos as int,
                        old(delta_state)@,
                        *opts,
                        old(self).next_ndx,
                    ).0.len()
                },
            },
            final(delta_state)@ == sub_list_left(
                old(r).buf@,
                old(r).pos as int,
                old(delta_state)@,
                *opts,
                old(self).next_ndx,
            ).1,
    {
        let ndx_start = self.next_ndx;
        delta_state.ndx_start = ndx_start;
        assert(delta_state@ == (DeltaView { ndx_start, ..old(delta_state)@ }));
        if ndx_start == i32::MAX {
            return Err(make_no_index_left(ndx_start as i64));
        }
        let (entries, end) = read_entries(r, delta_state, opts);
        assert(entry_views(entries@).len() == entries@.len());
        self.next_ndx = ndx_start + entries.len() as i32;
        match end {
            Ok(io_error) => {
                self.next_ndx = self.next_ndx + 1;
                Ok(SubFileList { dir_ndx, ndx_start, entries, io_error })
            },
            Err(e) => Err(e),
        }
    }
}

impl Default for IncrementalReceiver {
    fn default() -> (r: Self)
        ensures
            r.ndx_state == NdxState::initial(),
            r.next_ndx == 1,
    {
        IncrementalReceiver::new(true)
    }
}

/// What a sender of such lists remembers.
#[derive(Debug)]
pub struct IncrementalSender {
    /// What was written of indices.
    pub ndx_state: NdxState,
    /// The index of the next entry.
    pub next_ndx: i32,
}

/// The bytes of a list: its entries and its end.
pub open spec fn sub_list_bytes(es: Seq<EntryView>, o: FileListOptions, start: int) -> Seq<u8> {
    entries_bytes(es, o, start) + end_bytes(0, o)
}

impl IncrementalSender {
    /// Writes the marker of the list of a directory.
    pub fn write_sub_flist_marker(&mut self, w: &mut Vec<u8>, dir_ndx: i32, version: u8)
        requires
            NDX_FLIST_OFFSET - dir_ndx > i32::MIN,
        ensures
            final(w)@ == old(w)@ + ndx_bytes(
                (NDX_FLIST_OFFSET - dir_ndx) as i32,
                old(self).ndx_state,
                version,
            ),
            final(self).ndx_state == ndx_next(
                (NDX_FLIST_OFFSET - dir_ndx) as i32,
                old(self).ndx_state,
                version,
            ),
            final(self).next_ndx == old(self).next_ndx,
    {
        write_ndx(w, NDX_FLIST_OFFSET - dir_ndx, &mut self.ndx_state, version);
    }

    /// Writes the marker, the entries and the end of the list of a directory.
    pub fn send_sub_flist(
        &mut self,
        w: &mut Vec<u8>,
        dir_ndx: i32,
        entries: &[FileEntry],
        opts: &FileListOptions,
    )
        requires
            NDX_FLIST_OFFSET - dir_ndx > i32::MIN,
            old(self).next_ndx + entries.len() <= i32::MAX,
        ensures
            final(w)@ == old(w)@ + ndx_bytes(
                (NDX_FLIST_OFFSET - dir_ndx) as i32,
                old(self).ndx_state,
                opts.protocol_version,
            ) + sub_list_bytes(entry_views(entries@), *opts, old(self).next_ndx as int),
            final(self).ndx_state == ndx_next(
                (NDX_FLIST_OFFSET - dir_ndx) as i32,
                old(self).ndx_state,
                opts.protocol_version,
            ),
            final(self).next_ndx == old(self).next_ndx + entries.len(),
    {
        self.write_sub_flist_marker(w, dir_ndx, opts.protocol_version);
        let ghost marked = w@;
        let start = self.next_ndx;
        write_entries(w, entries, opts, start);
        self.next_ndx = (start as i64 + entries.len() as i64) as i32;
        write_end_of_flist(w, 0, opts);
        assert(w@ =~= marked + sub_list_bytes(entry_views(entries@), *opts, start as int));
    }

    /// Writes the marker behind the last list.
    pub fn write_flist_eof(&mut self, w: &mut Vec<u8>, version: u8)
        ensures
            final(w)@ == old(w)@ + ndx_bytes(NDX_FLIST_EOF, old(self).ndx_state, version),
            final(self).ndx_state == ndx_next(NDX_FLIST_EOF, old(self).ndx_state, version),
            final(self).next_ndx == old(self).next_ndx,
    {
        write_ndx(w, NDX_FLIST_EOF, &mut self.ndx_state, version);
    }
}

impl Default for IncrementalSender {
    fn default() -> (r: Self)
        ensures
            r.ndx_state == NdxState::initial(),
            r.next_ndx == 0,
    {
        IncrementalSender { ndx_state: NdxState::default(), next_ndx: 0 }
    }
}

/// What was sent of the list of a directory is received: the marker gives the
/// directory, and every entry comes out in order, where both sides give its
/// first entry the same index.
pub proof fn sub_list_read_back(
    s: Seq<u8>,
    p: int,
    dir_ndx: i32,
    es: Seq<EntryView>,
    st: NdxState,
    o: FileListOptions,
    start: i32,
)
    requires
        0 <= p,
        o.wf(),
        0 <= start,
        start + es.len() < i32::MAX,
        0 <= dir_ndx,
        NDX_FLIST_OFFSET - dir_ndx > i32::MIN,
        list_fits(es, o, start as int),
        holds_at(
            s,
            p,
            ndx_bytes((NDX_FLIST_OFFSET - dir_ndx) as i32, st, o.protocol_version)
                + sub_list_bytes(es, o, start as int),
        ),
    ensures
        ({
            let mark = (NDX_FLIST_OFFSET - dir_ndx) as i32;
            let b = ndx_bytes(mark, st, o.protocol_version);
            let got = got_list(es, o, start as int);
            let l = sub_list_at(s, p + b.len(), DeltaView::initial(), o, start);
            &&& ndx_at(s, p, st, o.protocol_version) == Ok::<(i32, int), ProtocolErrorView>(
                (mark, p + b.len()),
            )
            &&& ndx_read_next(s[p], mark, st, o.protocol_version) == ndx_next(
                mark,
                st,
                o.protocol_version,
            )
            &&& mark <= NDX_FLIST_OFFSET && NDX_FLIST_OFFSET - mark == dir_ndx
            &&& l is Ok
            &&& l->Ok_0.entries == got
            &&& l->Ok_0.io_error == 0
            &&& l->Ok_0.end == p + b.len() + sub_list_bytes(es, o, start as int).len()
        }),
{
    let mark = (NDX_FLIST_OFFSET - dir_ndx) as i32;
    let b = ndx_bytes(mark, st, o.protocol_version);
    holds_split(s, p, b, sub_list_bytes(es, o, start as int));
    ndx_read_back(s, p, mark, st, o.protocol_version);
    list_read_back(s, p + b.len(), es, o, start as int);
    assert(read_state(Seq::empty(), start as int) == (DeltaView {
        ndx_start: start,
        ..DeltaView::initial()
    }));
}

} // verus!
