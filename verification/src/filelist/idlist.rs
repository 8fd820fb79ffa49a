//! Lists of user and group names behind a file list.
//!
//! Each list holds the names of ids in ascending order, then the end marker,
//! which is id 0. Newer peers send the name of id 0 behind the marker.

use vstd::prelude::*;

use crate::error::{ProtocolError, ProtocolErrorView};
use crate::filelist::codec::options::FileListOptions;
use crate::filelist::entry::{copy_bytes, entry_views, EntryView, FileEntry};
use crate::protocol::varint::{
    read_varint30, varint30_at, varint30_bytes, varint30_read_back, write_varint30,
};
use crate::protocol::wire::{
    byte_at, bytes_at, holds_at, holds_index, holds_split, read_byte, read_bytes, write_byte,
    write_bytes, WireReader,
};

verus! {

/// The longest name that is sent.
pub const MAX_ID_NAME: usize = 255;

/// The id and name of an entry that a list is about.
pub open spec fn id_and_name(e: EntryView, groups: bool) -> (u32, Seq<u8>) {
    if groups {
        (e.gid, e.group_name)
    } else {
        (e.uid, e.user_name)
    }
}

/// The name of each id: the first that an entry has for it.
pub open spec fn id_names(es: Seq<EntryView>, groups: bool) -> Map<u32, Seq<u8>>
    decreases es.len(),
{
    if es.len() == 0 {
        Map::empty()
    } else {
        let before = id_names(es.drop_last(), groups);
        let (id, name) = id_and_name(es.last(), groups);
        if name.len() == 0 || before.dom().contains(id) {
            before
        } else {
            before.insert(id, name)
        }
    }
}

/// A name as sent: its length, then as much of it as is sent.
pub open spec fn id_name_bytes(name: Seq<u8>) -> Seq<u8> {
    let n = if name.len() <= MAX_ID_NAME {
        name.len() as int
    } else {
        MAX_ID_NAME as int
    };
    seq![n as u8] + name.take(n)
}

/// The bytes of the ids from 1 up to a bound that have a name, ascending.
pub open spec fn ids_bytes(names: Map<u32, Seq<u8>>, bound: nat, version: u8) -> Seq<u8>
    decreases bound,
{
    if bound <= 1 {
        Seq::empty()
    } else {
        let id = (bound - 1) as u32;
        ids_bytes(names, (bound - 1) as nat, version) + (if names.dom().contains(id) {
            varint30_bytes(id, version) + id_name_bytes(names[id])
        } else {
            Seq::empty()
        })
    }
}

/// The name that is sent for id 0.
pub open spec fn id0_name(names: Map<u32, Seq<u8>>) -> Seq<u8> {
    if names.dom().contains(0) {
        names[0]
    } else {
        seq![0x72u8, 0x6F, 0x6F, 0x74]
    }
}

/// The bytes of one list.
pub open spec fn id_list_bytes(names: Map<u32, Seq<u8>>, o: FileListOptions) -> Seq<u8> {
    ids_bytes(names, 0x1_0000_0000, o.protocol_version) + varint30_bytes(0, o.protocol_version) + (
    if o.xmit_id0_names {
        id_name_bytes(id0_name(names))
    } else {
        Seq::empty()
    })
}

/// The bytes of the lists of a session.
pub open spec fn id_lists_bytes(es: Seq<EntryView>, o: FileListOptions) -> Seq<u8> {
    (if o.preserve_uid {
        id_list_bytes(id_names(es, false), o)
    } else {
        Seq::empty()
    }) + (if o.preserve_gid {
        id_list_bytes(id_names(es, true), o)
    } else {
        Seq::empty()
    })
}

// ---------------------------------------------------------------------------
// Writing
// ---------------------------------------------------------------------------

/// The names of ids, ascending by id.
struct IdTable {
    rows: Vec<(u32, Vec<u8>)>,
}

impl IdTable {
    /// Rows ascend.
    spec fn wf(&self) -> bool {
        forall|i: int, j: int|
            0 <= i < j < self.rows.len() ==> #[trigger] self.rows[i].0 < #[trigger] self.rows[j].0
    }

    /// The rows hold the names of a map.
    spec fn holds(&self, m: Map<u32, Seq<u8>>) -> bool {
        &&& self.wf()
        &&& forall|i: int|
            0 <= i < self.rows.len() ==> m.dom().contains((#[trigger] self.rows[i]).0)
                && m[self.rows[i].0] == self.rows[i].1@
        &&& forall|id: u32| #[trigger]
            m.dom().contains(id) ==> exists|i: int|
                0 <= i < self.rows.len() && (#[trigger] self.rows[i]).0 == id
    }

    /// The first row whose id is not below an id.
    fn place(&self, id: u32) -> (r: usize)
        requires
            self.wf(),
        ensures
            r <= self.rows.len(),
            forall|i: int| 0 <= i < r ==> (#[trigger] self.rows[i]).0 < id,
            forall|i: int| r <= i < self.rows.len() ==> (#[trigger] self.rows[i]).0 >= id,
    {
        let mut i: usize = 0;
        while i < self.rows.len() && self.rows[i].0 < id
            invariant
                i <= self.rows.len(),
                forall|k: int| 0 <= k < i ==> (#[trigger] self.rows[k]).0 < id,
            decreases self.rows.len() - i,
        {
            i = i + 1;
        }
        i
    }

    /// The first names that entries have for their ids.
    fn collect(entries: &[FileEntry], groups: bool) -> (r: Self)
        ensures
            r.holds(id_names(entry_views(entries@), groups)),
    {
        let ghost all = entry_views(entries@);
        let mut t = IdTable { rows: Vec::new() };
        let mut i: usize = 0;
        assert(all.take(0) =~= Seq::empty());
        while i < entries.len()
            invariant
                i <= entries.len(),
                all == entry_views(entries@),
                t.holds(id_names(all.take(i as int), groups)),
            decreases entries.len() - i,
        {
            let ghost h = all.take(i as int);
            let ghost m = id_names(h, groups);
            let ghost was = t.rows@;
            proof {
                assert(all.take(i + 1).drop_last() =~= h);
                assert(all.take(i + 1).last() == entries[i as int]@);
            }
            let e = &entries[i];
            let (id, name): (u32, &Vec<u8>) = if groups {
                (e.gid, &e.group_name)
            } else {
                (e.uid, &e.user_name)
            };
            if name.len() > 0 {
                let k: usize = t.place(id);
                if k >= t.rows.len() || t.rows[k].0 != id {
                    proof {
                        if m.dom().contains(id) {
                            let j = choose|j: int|
                                0 <= j < t.rows.len() && (#[trigger] t.rows[j]).0 == id;
                            assert(t.rows[j].0 == id);
                            assert(j >= k);
                            assert(k < j ==> t.rows[k as int].0 < t.rows[j].0);
                        }
                    }
                    t.rows.insert(k, (id, copy_bytes(name)));
                    proof {
                        let m2 = m.insert(id, name@);
                        assert forall|x: u32| #[trigger] m2.dom().contains(x) implies exists|j: int|
                            0 <= j < t.rows.len() && (#[trigger] t.rows[j]).0 == x by {
                            if x == id {
                                assert(t.rows[k as int].0 == id);
                            } else {
                                assert(m.dom().contains(x));
                                let j = choose|j: int|
                                    0 <= j < was.len() && (#[trigger] was[j]).0 == x;
                                if j < k {
                                    assert(t.rows[j].0 == x);
                                } else {
                                    assert(t.rows[j + 1] == was[j]);
                                }
                            }
                        }
                        assert forall|a: int, b: int| 0 <= a < b < t.rows.len() implies (
                        #[trigger] t.rows[a]).0 < (#[trigger] t.rows[b]).0 by {
                            let a2 = if a < k {
                                a
                            } else {
                                a - 1
                            };
                            let b2 = if b < k {
                                b
                            } else {
                                b - 1
                            };
                            if a != k {
                                assert(t.rows[a] == was[a2]);
                            }
                            if b != k {
                                assert(t.rows[b] == was[b2]);
                            }
                        }
                        assert forall|a: int| 0 <= a < t.rows.len() implies m2.dom().contains(
                            (#[trigger] t.rows[a]).0,
                        ) && m2[t.rows[a].0] == t.rows[a].1@ by {
                            if a < k {
                                assert(t.rows[a] == was[a]);
                            } else if a > k {
                                assert(t.rows[a] == was[a - 1]);
                            }
                        }
                    }
                } else {
                    assert(m.dom().contains(t.rows[k as int].0));
                }
            }
            i = i + 1;
        }
        assert(all.take(i as int) =~= all);
        t
    }

    /// Writes the names of the ids other than 0.
    fn write_rows(&self, w: &mut Vec<u8>, version: u8, Ghost(m): Ghost<Map<u32, Seq<u8>>>)
        requires
            self.holds(m),
        ensures
            final(w)@ == old(w)@ + ids_bytes(m, 0x1_0000_0000, version),
    {
        let ghost had = w@;
        let ghost mut done: nat = 0;
        let mut i: usize = 0;
        assert(had + Seq::<u8>::empty() =~= had);
        while i < self.rows.len()
            invariant
                i <= self.rows.len(),
                self.holds(m),
                done <= 0x1_0000_0000,
                forall|k: int| i <= k < self.rows.len() ==> done <= (#[trigger] self.rows[k]).0,
                forall|k: int| 0 <= k < i ==> (#[trigger] self.rows[k]).0 < done,
                w@ == had + ids_bytes(m, done, version),
            decreases self.rows.len() - i,
        {
            let ghost before = w@;
            let id = self.rows[i].0;
            proof {
                assert forall|x: u32| done <= x < id implies !m.dom().contains(x) by {
                    if m.dom().contains(x) {
                        let j = choose|j: int|
                            0 <= j < self.rows.len() && (#[trigger] self.rows[j]).0 == x;
                        if j > i {
                            assert(self.rows[i as int].0 < self.rows[j].0);
                        }
                    }
                }
                ids_gap(m, done, id as nat, version);
            }
            if id != 0 {
                write_varint30(w, id, version);
                write_id_name(w, &self.rows[i].1);
                proof {
                    let b = varint30_bytes(id, version) + id_name_bytes(self.rows[i as int].1@);
                    assert(w@ =~= before + b);
                    assert(ids_bytes(m, (id + 1) as nat, version) == ids_bytes(
                        m,
                        id as nat,
                        version,
                    ) + b);
                    assert(w@ =~= had + ids_bytes(m, (id + 1) as nat, version));
                }
            }
            proof {
                done = (id + 1) as nat;
                assert forall|k: int| i + 1 <= k < self.rows.len() implies done <= (
                #[trigger] self.rows[k]).0 by {
                    assert(self.rows[i as int].0 < self.rows[k].0);
                }
            }
            i = i + 1;
        }
        proof {
            assert forall|x: u32| done <= x < 0x1_0000_0000 implies !m.dom().contains(x) by {
                if m.dom().contains(x) {
                    let j = choose|j: int|
                        0 <= j < self.rows.len() && (#[trigger] self.rows[j]).0 == x;
                    assert(self.rows[j].0 < done);
                }
            }
            ids_gap(m, done, 0x1_0000_0000, version);
        }
    }

    /// Writes the list.
    fn write(&self, w: &mut Vec<u8>, opts: &FileListOptions, Ghost(m): Ghost<Map<u32, Seq<u8>>>)
        requires
            self.holds(m),
        ensures
            final(w)@ == old(w)@ + id_list_bytes(m, *opts),
    {
        self.write_rows(w, opts.protocol_version, Ghost(m));
        write_varint30(w, 0, opts.protocol_version);
        if opts.xmit_id0_names {
            if self.rows.len() > 0 && self.rows[0].0 == 0 {
                assert(m.dom().contains(self.rows[0].0));
                write_id_name(w, &self.rows[0].1);
            } else {
                proof {
                    if m.dom().contains(0) {
                        let j = choose|j: int|
                            0 <= j < self.rows.len() && (#[trigger] self.rows[j]).0 == 0;
                        if j > 0 {
                            assert(self.rows[0].0 < self.rows[j].0);
                        }
                    }
                }
                let root: [u8; 4] = [0x72, 0x6F, 0x6F, 0x74];
                assert(root@ =~= seq![0x72u8, 0x6F, 0x6F, 0x74]);
                write_id_name(w, root.as_slice());
            }
        }
        assert(w@ =~= old(w)@ + id_list_bytes(m, *opts));
    }
}

/// Ids without a name add nothing.
proof fn ids_gap(m: Map<u32, Seq<u8>>, a: nat, b: nat, version: u8)
    requires
        a <= b <= 0x1_0000_0000,
        forall|x: u32| a <= x < b ==> !m.dom().contains(x),
    ensures
        ids_bytes(m, a, version) == ids_bytes(m, b, version),
    decreases b,
{
    if a < b {
        ids_gap(m, a, (b - 1) as nat, version);
        let id = (b - 1) as u32;
        assert(!m.dom().contains(id));
        assert(ids_bytes(m, b, version) =~= ids_bytes(m, (b - 1) as nat, version));
    }
}

/// Writes a name.
fn write_id_name(w: &mut Vec<u8>, name: &[u8])
    ensures
        final(w)@ == old(w)@ + id_name_bytes(name@),
{
    let n: usize = if name.len() <= MAX_ID_NAME {
        name.len()
    } else {
        MAX_ID_NAME
    };
    write_byte(w, n as u8);
    write_bytes(w, vstd::slice::slice_subrange(name, 0, n));
    assert(name@.subrange(0, n as int) =~= name@.take(n as int));
    assert(w@ =~= old(w)@ + id_name_bytes(name@));
}

/// Writes the lists of a session.
pub fn send_id_list(w: &mut Vec<u8>, entries: &[FileEntry], opts: &FileListOptions)
    ensures
        final(w)@ == old(w)@ + id_lists_bytes(entry_views(entries@), *opts),
{
    let ghost es = entry_views(entries@);
    if opts.preserve_uid {
        let t = IdTable::collect(entries, false);
        t.write(w, opts, Ghost(id_names(es, false)));
    }
    if opts.preserve_gid {
        let t = IdTable::collect(entries, true);
        t.write(w, opts, Ghost(id_names(es, true)));
    }
    assert(w@ =~= old(w)@ + id_lists_bytes(es, *opts));
}

// ---------------------------------------------------------------------------
// Reading
// ---------------------------------------------------------------------------

/// Where a name at a position ends.
pub open spec fn id_name_at(s: Seq<u8>, p: int) -> Result<int, ProtocolErrorView> {
    match byte_at(s, p) {
        Err(e) => Err(e),
        Ok((n, q)) => match bytes_at(s, q, n as int) {
            Err(e) => Err(e),
            Ok((_, q2)) => Ok(q2),
        },
    }
}

/// Where the ids at a position end, behind the end marker.
pub open spec fn ids_at(s: Seq<u8>, p: int, version: u8) -> Result<int, ProtocolErrorView>
    decreases
            (if p < s.len() {
                s.len() - p
            } else {
                0
            }),
{
    if p >= s.len() {
        Err(crate::error::eof_error())
    } else {
        match varint30_at(s, p, version) {
            Err(e) => Err(e),
            Ok((id, q)) => if id == 0 {
                Ok(q)
            } else {
                match id_name_at(s, q) {
                    Err(e) => Err(e),
                    Ok(q2) => ids_at(s, q2, version),
                }
            },
        }
    }
}

/// Where one list at a position ends.
pub open spec fn id_list_at(s: Seq<u8>, p: int, o: FileListOptions) -> Result<
    int,
    ProtocolErrorView,
> {
    match ids_at(s, p, o.protocol_version) {
        Err(e) => Err(e),
        Ok(q) => if o.xmit_id0_names {
            id_name_at(s, q)
        } else {
            Ok(q)
        },
    }
}

/// Where the lists of a session at a position end.
pub open spec fn id_lists_at(s: Seq<u8>, p: int, o: FileListOptions) -> Result<
    int,
    ProtocolErrorView,
> {
    let a = if o.preserve_uid {
        id_list_at(s, p, o)
    } else {
        Ok(p)
    };
    match a {
        Err(e) => Err(e),
        Ok(q) => if o.preserve_gid {
            id_list_at(s, q, o)
        } else {
            Ok(q)
        },
    }
}

/// Reads past something whose end is known.
pub open spec fn skips_to(
    before: WireReader,
    after: WireReader,
    end: Result<int, ProtocolErrorView>,
    res: Result<(), ProtocolError>,
) -> bool {
    &&& after.wf()
    &&& after.buf@ == before.buf@
    &&& match end {
        Ok(q) => res is Ok && after.pos == q && before.pos <= q,
        Err(e) => res is Err && res->Err_0@ == e,
    }
}

fn skip_id_name(r: &mut WireReader) -> (res: Result<(), ProtocolError>)
    requires
        old(r).wf(),
    ensures
        skips_to(*old(r), *final(r), id_name_at(old(r).buf@, old(r).pos as int), res),
{
    match read_byte(r) {
        Err(e) => Err(e),
        Ok(n) => match read_bytes(r, n as usize) {
            Err(e) => Err(e),
            Ok(_) => Ok(()),
        },
    }
}

fn skip_ids(r: &mut WireReader, version: u8) -> (res: Result<(), ProtocolError>)
    requires
        old(r).wf(),
    ensures
        skips_to(*old(r), *final(r), ids_at(old(r).buf@, old(r).pos as int, version), res),
{
    let ghost s = r.buf@;
    let ghost p0 = r.pos;
    let ghost want = ids_at(s, r.pos as int, version);
    loop
        invariant
            r.wf(),
            r.buf@ == s,
            s == old(r).buf@,
            p0 == old(r).pos,
            p0 <= r.pos,
            want == ids_at(s, p0 as int, version),
            want == ids_at(s, r.pos as int, version),
        decreases r.buf.len() - r.pos,
    {
        match read_varint30(r, version) {
            Err(e) => {
                return Err(e);
            },
            Ok(id) => {
                if id == 0 {
                    return Ok(());
                }
                match skip_id_name(r) {
                    Err(e) => {
                        return Err(e);
                    },
                    Ok(_) => {},
                }
            },
        }
    }
}

fn skip_id_list(r: &mut WireReader, opts: &FileListOptions) -> (res: Result<(), ProtocolError>)
    requires
        old(r).wf(),
    ensures
        skips_to(*old(r), *final(r), id_list_at(old(r).buf@, old(r).pos as int, *opts), res),
{
    match skip_ids(r, opts.protocol_version) {
        Err(e) => Err(e),
        Ok(_) => if opts.xmit_id0_names {
            skip_id_name(r)
        } else {
            Ok(())
        },
    }
}

/// Reads the lists of a session. The names are not kept.
pub fn recv_id_list(r: &mut WireReader, opts: &FileListOptions) -> (res: Result<(), ProtocolError>)
    requires
        old(r).wf(),
    ensures
        skips_to(*old(r), *final(r), id_lists_at(old(r).buf@, old(r).pos as int, *opts), res),
{
    if opts.preserve_uid {
        match skip_id_list(r, opts) {
            Err(e) => {
                return Err(e);
            },
            Ok(_) => {},
        }
    }
    if opts.preserve_gid {
        skip_id_list(r, opts)
    } else {
        Ok(())
    }
}

// ---------------------------------------------------------------------------
// What is sent is read
// ---------------------------------------------------------------------------

proof fn id_name_read_back(s: Seq<u8>, p: int, name: Seq<u8>)
    requires
        0 <= p,
        holds_at(s, p, id_name_bytes(name)),
    ensures
        id_name_at(s, p) == Ok::<int, ProtocolErrorView>(p + id_name_bytes(name).len()),
{
    holds_index(s, p, id_name_bytes(name), 0);
}

proof fn ids_read_on(s: Seq<u8>, p: int, m: Map<u32, Seq<u8>>, bound: nat, version: u8)
    requires
        0 <= p,
        bound <= 0x1_0000_0000,
        holds_at(s, p, ids_bytes(m, bound, version)),
    ensures
        ids_at(s, p, version) == ids_at(s, p + ids_bytes(m, bound, version).len(), version),
    decreases bound,
{
    if bound > 1 {
        let id = (bound - 1) as u32;
        let a = ids_bytes(m, (bound - 1) as nat, version);
        if m.dom().contains(id) {
            let v = varint30_bytes(id, version);
            let n = id_name_bytes(m[id]);
            holds_split(s, p, a, v + n);
            ids_read_on(s, p, m, (bound - 1) as nat, version);
            holds_split(s, p + a.len(), v, n);
            varint30_read_back(s, p + a.len(), id, version);
            id_name_read_back(s, p + a.len() + v.len(), m[id]);
            assert(ids_bytes(m, bound, version).len() == a.len() + v.len() + n.len());
        } else {
            assert(ids_bytes(m, bound, version) =~= a);
            ids_read_on(s, p, m, (bound - 1) as nat, version);
        }
    }
}

proof fn id_list_read_back(s: Seq<u8>, p: int, m: Map<u32, Seq<u8>>, o: FileListOptions)
    requires
        0 <= p,
        holds_at(s, p, id_list_bytes(m, o)),
    ensures
        id_list_at(s, p, o) == Ok::<int, ProtocolErrorView>(p + id_list_bytes(m, o).len()),
{
    let a = ids_bytes(m, 0x1_0000_0000, o.protocol_version);
    let z = varint30_bytes(0, o.protocol_version);
    let n = if o.xmit_id0_names {
        id_name_bytes(id0_name(m))
    } else {
        Seq::empty()
    };
    holds_split(s, p, a + z, n);
    holds_split(s, p, a, z);
    ids_read_on(s, p, m, 0x1_0000_0000, o.protocol_version);
    varint30_read_back(s, p + a.len(), 0, o.protocol_version);
    if o.xmit_id0_names {
        id_name_read_back(s, p + a.len() + z.len(), id0_name(m));
    }
}

/// The reader of the name lists stops just where the writer did.
pub proof fn id_lists_read_back(s: Seq<u8>, p: int, es: Seq<EntryView>, o: FileListOptions)
    requires
        0 <= p,
        holds_at(s, p, id_lists_bytes(es, o)),
    ensures
        id_lists_at(s, p, o) == Ok::<int, ProtocolErrorView>(p + id_lists_bytes(es, o).len()),
{
    let a = if o.preserve_uid {
        id_list_bytes(id_names(es, false), o)
    } else {
        Seq::empty()
    };
    let b = if o.preserve_gid {
        id_list_bytes(id_names(es, true), o)
    } else {
        Seq::empty()
    };
    holds_split(s, p, a, b);
    if o.preserve_uid {
        id_list_read_back(s, p, id_names(es, false), o);
    }
    if o.preserve_gid {
        id_list_read_back(s, p + a.len(), id_names(es, true), o);
    }
}

} // verus!
