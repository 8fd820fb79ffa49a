//! What similar files, checkpoints and sparse files say of data.

use vstd::prelude::*;

use vstd::utf8::valid_utf8;

use crate::engine::checkpoint::{
    block_count, checkpoint_bytes, marked, missing, packed, tail_bytes, CheckpointView,
};
use crate::engine::fuzzy::{closer, closest, common_len, exact_match, listed_names, longer, similar};
use crate::engine::receiver_engine::fuzzy_basis;
use crate::filelist::entry::{valid_text_is_kept, EntryView};
use crate::fs::metadata::DirEntryView;
use crate::fs::sparse::pieces_from;
use crate::options::OptionsView;
use crate::path_laws::{parent_is_the_directory, plain_dir, plain_name};
use crate::protocol::wire::le_bytes;

verus! {

// ---------------------------------------------------------------------------
// Similar files
// ---------------------------------------------------------------------------

/// Names are similar where more than half of the longer one is common to both.
pub proof fn similar_names_share_most(a: Seq<u8>, b: Seq<u8>)
    ensures
        similar(a, b) <==> 2 * common_len(a, b) > a.len() && 2 * common_len(a, b) > b.len(),
{
}

/// Where a name is similar, one is found; where none is, none is found. What is
/// found is similar, no other one is closer, and none before it is as close.
pub proof fn closest_name_is_the_closest(target: Seq<u8>, names: Seq<Seq<u8>>)
    requires
        target.len() > 0,
    ensures
        ({
            let c = closest(target, names);
            &&& c is None <==> forall|i: int|
                0 <= i < names.len() ==> !similar(target, #[trigger] names[i])
            &&& c is Some ==> {
                let k = c->0;
                &&& 0 <= k < names.len()
                &&& similar(target, names[k])
                &&& forall|i: int|
                    0 <= i < names.len() ==> common_len(target, names[k]) * longer(
                        target,
                        #[trigger] names[i],
                    ) >= common_len(target, names[i]) * longer(target, names[k])
                &&& forall|i: int|
                    0 <= i < k ==> common_len(target, names[k]) * longer(
                        target,
                        #[trigger] names[i],
                    ) > common_len(target, names[i]) * longer(target, names[k])
            }
        }),
    decreases names.len(),
{
    if names.len() > 0 {
        let rest = names.drop_last();
        let last = names.len() - 1;
        closest_name_is_the_closest(target, rest);
        assert(forall|i: int| 0 <= i < rest.len() ==> rest[i] == names[i]);
        let b = closest(target, rest);
        let x = common_len(target, names[last]) as int;
        let p = longer(target, names[last]) as int;
        if b is None {
            assert forall|i: int| 0 <= i < last && similar(target, names[last]) implies x * longer(
                target,
                #[trigger] names[i],
            ) > common_len(target, names[i]) * p by {
                assert(!similar(target, rest[i]));
                let y = common_len(target, names[i]) as int;
                let q = longer(target, names[i]) as int;
                assert(x * q > y * p) by (nonlinear_arith)
                    requires
                        2 * x > p,
                        2 * y <= q,
                        p > 0,
                        q > 0,
                        x >= 0,
                        y >= 0,
                ;
            }
        } else {
            let k = b->0;
            let y = common_len(target, names[k]) as int;
            let q = longer(target, names[k]) as int;
            assert(rest[k] == names[k]);
            if closer(target, names[last], names[k]) {
                assert forall|i: int| 0 <= i < last implies x * longer(target, #[trigger] names[i])
                    > common_len(target, names[i]) * p by {
                    let z = common_len(target, names[i]) as int;
                    let r = longer(target, names[i]) as int;
                    assert(rest[i] == names[i]);
                    assert(x * r > z * p) by (nonlinear_arith)
                        requires
                            x * q > y * p,
                            y * r >= z * q,
                            p > 0,
                            q > 0,
                            r > 0,
                            x >= 0,
                            y >= 0,
                            z >= 0,
                    ;
                }
                assert(2 * x > p) by (nonlinear_arith)
                    requires
                        x * q > y * p,
                        2 * y > q,
                        p > 0,
                        q > 0,
                        x >= 0,
                        y >= 0,
                ;
            }
        }
        if !(closest(target, names) is None) && b is None {
            assert(similar(target, names[last]));
        }
        assert(names[last] == names.last());
    }
}

/// A file in the directory with the same size and time serves before any with a
/// similar name; the first of them that can be read is taken. Nothing is looked
/// for unless that was asked for.
pub proof fn same_size_and_time_serve_first(
    o: OptionsView,
    dest: Seq<u8>,
    e: EntryView,
    l: Seq<DirEntryView>,
    readable: Seq<bool>,
    k: int,
)
    requires
        readable.len() == l.len(),
        plain_dir(dest),
        plain_name(e.name),
    ensures
        !o.behavior.fuzzy ==> fuzzy_basis(o, dest, e, l, readable) is None,
        o.behavior.fuzzy && 0 <= k < l.len() && l[k].metadata.len == e.len && l[k].metadata.mtime
            == e.mtime && readable[k] && (forall|j: int|
            0 <= j < k ==> (#[trigger] l[j]).metadata.len != e.len || l[j].metadata.mtime != e.mtime
                || !readable[j]) ==> fuzzy_basis(o, dest, e, l, readable) == Some(
            crate::path::joined(dest, l[k].name),
        ),
{
    parent_is_the_directory(dest, e.name);
    crate::filelist::entry_laws::last_component_is_the_name(dest, e.name, dest);
    if o.behavior.fuzzy && 0 <= k < l.len() && l[k].metadata.len == e.len && l[k].metadata.mtime
        == e.mtime && readable[k] && (forall|j: int|
        0 <= j < k ==> (#[trigger] l[j]).metadata.len != e.len || l[j].metadata.mtime != e.mtime
            || !readable[j]) {
        exact_found(e, l, readable, 0, k);
    }
}

proof fn exact_found(e: EntryView, l: Seq<DirEntryView>, readable: Seq<bool>, i: int, k: int)
    requires
        0 <= i <= k < l.len(),
        exact_match(e, l[k]) && readable[k],
        forall|j: int|
            i <= j < k ==> (#[trigger] l[j]).metadata.len != e.len || l[j].metadata.mtime != e.mtime
                || !readable[j],
    ensures
        crate::engine::receiver_engine::first_exact(e, l, readable, i) == k,
    decreases k - i,
{
    if i < k {
        assert(!(exact_match(e, l[i]) && readable[i]));
        exact_found(e, l, readable, i + 1, k);
    }
}

/// Where no file has the same size and time, the closest name serves, if it can be
/// read.
pub proof fn closest_name_serves_else(
    o: OptionsView,
    dest: Seq<u8>,
    e: EntryView,
    l: Seq<DirEntryView>,
    readable: Seq<bool>,
)
    requires
        o.behavior.fuzzy,
        readable.len() == l.len(),
        plain_dir(dest),
        plain_name(e.name),
        forall|j: int|
            0 <= j < l.len() ==> (#[trigger] l[j]).metadata.len != e.len || l[j].metadata.mtime
                != e.mtime || !readable[j],
    ensures
        ({
            let names = Seq::new(l.len(), |i: int| l[i].name);
            let c = closest(e.name, names);
            let r = fuzzy_basis(o, dest, e, l, readable);
            &&& c is None ==> r is None
            &&& c is Some && !readable[c->0] ==> r is None
            &&& c is Some && readable[c->0] ==> r == Some(crate::path::joined(dest, l[c->0].name))
        }),
{
    parent_is_the_directory(dest, e.name);
    crate::filelist::entry_laws::last_component_is_the_name(dest, e.name, dest);
    none_exact(e, l, readable, 0);
    assert(listed_names(l) =~= Seq::new(l.len(), |i: int| l[i].name));
}

proof fn none_exact(e: EntryView, l: Seq<DirEntryView>, readable: Seq<bool>, i: int)
    requires
        0 <= i <= l.len(),
        forall|j: int|
            i <= j < l.len() ==> (#[trigger] l[j]).metadata.len != e.len || l[j].metadata.mtime
                != e.mtime || !readable[j],
    ensures
        crate::engine::receiver_engine::first_exact(e, l, readable, i) == l.len(),
    decreases l.len() - i,
{
    if i < l.len() {
        assert(!(exact_match(e, l[i]) && readable[i]));
        none_exact(e, l, readable, i + 1);
    }
}

// ---------------------------------------------------------------------------
// Checkpoints
// ---------------------------------------------------------------------------

/// The blocks of a file cover it, and the last one is needed.
pub proof fn blocks_cover_the_file(file_size: u64, block_size: usize)
    requires
        block_size > 0,
        file_size <= usize::MAX,
    ensures
        ({
            let n = block_count(file_size, block_size);
            &&& n >= 0
            &&& n * block_size >= file_size
            &&& (n - 1) * block_size < file_size || n == 0
            &&& n == 0 <==> file_size == 0
        }),
        block_count(file_size, 0) == 0,
{
    let n = file_size as int;
    let b = block_size as int;
    let q = n / b;
    let r = n % b;
    assert(n == q * b + r && 0 <= r < b && q >= 0) by (nonlinear_arith)
        requires
            b > 0,
            n >= 0,
            q == n / b,
            r == n % b,
    ;
    assert((q - 1) * b == q * b - b && (q + 1) * b == q * b + b) by (nonlinear_arith);
    assert((q > 0 && q * b >= b) || (q == 0 && q * b == 0)) by (nonlinear_arith)
        requires
            q >= 0,
            b > 0,
    ;
    assert((file_size as usize) as int == n);
    let c = block_count(file_size, block_size);
    assert(c == q && r == 0 || c == q + 1 && r > 0);
    assert((c - 1) * b == c * b - b) by (nonlinear_arith);
}

/// A block that is marked is done, and no other one changes.
pub proof fn marking_is_for_one_block(blocks: Seq<bool>, idx: int, k: int)
    requires
        0 <= k < blocks.len(),
    ensures
        marked(blocks, idx).len() == blocks.len(),
        marked(blocks, idx)[k] == (blocks[k] || k == idx),
{
}

/// A checkpoint is kept as its mark, the version, the path with its length, size,
/// block size, seed and time, the number of blocks and a bit for each, all numbers
/// with the low byte first.
pub proof fn checkpoints_have_their_layout(c: CheckpointView)
    requires
        c.file_path.len() > 0,
        valid_utf8(c.file_path),
        c.file_path.len() < 0x1_0000_0000,
        c.completed_blocks.len() < 0x1_0000_0000,
        c.checksum_seed >= 0,
        c.timestamp >= 0,
    ensures
        checkpoint_bytes(c) == seq![0x46u8, 0x53, 0x43, 0x4B, 0x50, 0x54, 0, 1, 1] + le_bytes(
            c.file_path.len(),
            4,
        ) + c.file_path + le_bytes(c.file_size as nat, 8) + le_bytes(c.block_size as nat, 8)
            + le_bytes(c.checksum_seed as nat, 4) + le_bytes(c.timestamp as nat, 8) + le_bytes(
            c.completed_blocks.len(),
            4,
        ) + packed(c.completed_blocks),
{
    valid_text_is_kept(c.file_path);
    let n = c.file_path.len();
    let k = c.completed_blocks.len();
    assert((n as u32) as nat == n && (k as u32) as nat == k);
    assert(c.completed_blocks.take(k as int) =~= c.completed_blocks);
    let a = seq![0x46u8, 0x53u8, 0x43u8, 0x4Bu8, 0x50u8, 0x54u8, 0u8, 1u8];
    assert(a + seq![1u8] =~= seq![0x46u8, 0x53, 0x43, 0x4B, 0x50, 0x54, 0, 1, 1]);
    let t = tail_bytes(c);
    let fs = le_bytes(c.file_size as nat, 8);
    let bs = le_bytes(c.block_size as nat, 8);
    let se = le_bytes(c.checksum_seed as nat, 4);
    let ti = le_bytes(c.timestamp as nat, 8);
    let cn = le_bytes(k, 4);
    let pk = packed(c.completed_blocks);
    assert(t =~= fs + bs + se + ti + cn + pk);
    let h = a + seq![1u8] + le_bytes(n, 4) + c.file_path;
    assert(checkpoint_bytes(c) =~= h + t);
    assert(h + t =~= h + fs + bs + se + ti + cn + pk);
}

/// What is missing is counted block by block.
pub proof fn missing_blocks_are_counted(blocks: Seq<bool>, done: bool)
    ensures
        missing(Seq::empty()) == 0,
        missing(blocks.push(done)) == missing(blocks) + (if done {
            0nat
        } else {
            1
        }),
{
    assert(blocks.push(done).drop_last() =~= blocks);
}

// ---------------------------------------------------------------------------
// Sparse files
// ---------------------------------------------------------------------------

/// Data is cut at every 4096 bytes. A piece is a hole exactly if all its bytes are
/// zero.
pub proof fn pieces_are_holes_where_zero(data: Seq<u8>, start: int)
    requires
        0 <= start < data.len() <= usize::MAX,
    ensures
        ({
            let p = pieces_from(data, start);
            let end = if start + 4096 <= data.len() {
                start + 4096
            } else {
                data.len() as int
            };
            &&& p.len() > 0
            &&& p[0].start == start
            &&& p[0].end == end
            &&& p[0].hole <==> forall|i: int| start <= i < end ==> data[i] == 0
            &&& p.skip(1) == pieces_from(data, end)
            &&& pieces_from(data, data.len() as int).len() == 0
        }),
{
    let p = pieces_from(data, start);
    let end = if start + 4096 <= data.len() {
        start + 4096
    } else {
        data.len() as int
    };
    let s = data.subrange(start, end);
    assert(p.skip(1) =~= pieces_from(data, end));
    assert(forall|i: int| 0 <= i < s.len() ==> s[i] == data[start + i]);
    if p[0].hole {
        assert forall|i: int| start <= i < end implies data[i] == 0 by {
            assert(s[i - start] == 0);
        }
    }
}

} // verus!
