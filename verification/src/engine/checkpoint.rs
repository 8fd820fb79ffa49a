//! Block-level resume via checkpoint files.
//!
//! When a transfer is interrupted, a checkpoint records which blocks have been
//! written. On resume, only the remaining blocks need to be transferred.

use vstd::prelude::*;
use vstd::utf8::{encode_utf8, valid_utf8};

use crate::error::{FsError, FsErrorView, IoErrorKind, IoFailure, IoFailureView};
use crate::filelist::entry::{path_file_name, file_name_of, valid_text_is_kept};
use crate::protocol::varint::{as_i32, as_i64, as_u32, as_u64, i32_of, i64_of, u32_of, u64_of};
use crate::protocol::wire::{
    byte_range_values, get_le, le_bytes, le_bytes_len, le_read_back, le_value, push_le, write_bytes,
};
use crate::text::{from_chars, lossy_string, lossy_text, push_text, to_chars, utf8_string};

verus! {

/// The bytes that a checkpoint file starts with.
pub open spec fn magic() -> Seq<u8> {
    seq![0x46u8, 0x53u8, 0x43u8, 0x4Bu8, 0x50u8, 0x54u8, 0u8, 1u8]
}

/// Current checkpoint format version.
pub const VERSION: u8 = 1;

/// Metadata for resuming a partially-transferred file.
#[derive(Debug, Clone, PartialEq, Eq)]
pub struct Checkpoint {
    /// The file being transferred (relative path).
    pub file_path: Vec<u8>,
    /// Expected total file size in bytes.
    pub file_size: u64,
    /// Block size used for this transfer.
    pub block_size: usize,
    /// Bitmap of which blocks have been successfully written.
    pub completed_blocks: Vec<bool>,
    /// Checksum seed used for this transfer.
    pub checksum_seed: i32,
    /// Unix timestamp when this checkpoint was created.
    pub timestamp: i64,
}

/// The view of a [`Checkpoint`].
#[verifier::ext_equal]
pub struct CheckpointView {
    pub file_path: Seq<u8>,
    pub file_size: u64,
    pub block_size: usize,
    pub completed_blocks: Seq<bool>,
    pub checksum_seed: i32,
    pub timestamp: i64,
}

impl View for Checkpoint {
    type V = CheckpointView;

    open spec fn view(&self) -> CheckpointView {
        CheckpointView {
            file_path: self.file_path@,
            file_size: self.file_size,
            block_size: self.block_size,
            completed_blocks: self.completed_blocks@,
            checksum_seed: self.checksum_seed,
            timestamp: self.timestamp,
        }
    }
}

/// How many blocks a file has; the last may be short.
pub open spec fn block_count(file_size: u64, block_size: usize) -> int {
    let n = (file_size as usize) as int;
    if block_size == 0 {
        0
    } else if n % (block_size as int) == 0 {
        n / (block_size as int)
    } else {
        n / (block_size as int) + 1
    }
}

/// How many groups of a size hold a number of things.
fn groups(n: usize, size: usize) -> (r: usize)
    requires
        size > 0,
    ensures
        r == (if n % size == 0 {
            (n / size) as int
        } else {
            n / size + 1
        }),
        (r as int) * (size as int) >= n,
        r > 0 ==> (r - 1) * (size as int) < n,
{
    let q: usize = n / size;
    proof {
        vstd::arithmetic::div_mod::lemma_fundamental_div_mod(n as int, size as int);
        assert(size as int * q as int == q as int * size as int) by (nonlinear_arith);
        assert((q + 1) * size as int == q as int * size as int + size as int) by (nonlinear_arith);
        assert((q - 1) * size as int == q as int * size as int - size as int) by (nonlinear_arith);
        if n % size != 0 {
            assert(q < usize::MAX) by (nonlinear_arith)
                requires
                    n as int == size as int * q as int + n as int % size as int,
                    n as int % size as int > 0,
                    size > 0,
                    n <= usize::MAX,
            ;
        }
    }
    if n % size == 0 {
        q
    } else {
        q + 1
    }
}

impl Checkpoint {
    /// Compute the total number of blocks for the file.
    pub fn total_blocks(&self) -> (r: usize)
        ensures
            r == block_count(self.file_size, self.block_size),
    {
        if self.block_size == 0 {
            return 0;
        }
        groups(self.file_size as usize, self.block_size)
    }

    /// Create a new checkpoint with no blocks completed.
    pub fn new(
        file_path: Vec<u8>,
        file_size: u64,
        block_size: usize,
        checksum_seed: i32,
        timestamp: i64,
    ) -> (r: Checkpoint)
        ensures
            r@ == (CheckpointView {
                file_path: file_path@,
                file_size,
                block_size,
                completed_blocks: Seq::new(
                    block_count(file_size, block_size) as nat,
                    |i: int| false,
                ),
                checksum_seed,
                timestamp,
            }),
    {
        let total: usize = if block_size == 0 {
            0
        } else {
            groups(file_size as usize, block_size)
        };
        let blocks: Vec<bool> = vec![false; total];
        assert(blocks@ =~= Seq::new(
            block_count(file_size, block_size) as nat,
            |i: int| false,
        ));
        Checkpoint {
            file_path,
            file_size,
            block_size,
            completed_blocks: blocks,
            checksum_seed,
            timestamp,
        }
    }

    /// Return a `ResumeState` view of this checkpoint.
    pub fn resume_state(&mut self) -> (r: ResumeState<'_>)
        ensures
            r.blocks() == old(self)@.completed_blocks,
            final(self)@ == (CheckpointView {
                completed_blocks: final(r.completed_blocks)@,
                ..old(self)@
            }),
    {
        ResumeState { completed_blocks: &mut self.completed_blocks }
    }
}

/// How many blocks are still missing.
pub open spec fn missing(blocks: Seq<bool>) -> nat
    decreases blocks.len(),
{
    if blocks.len() == 0 {
        0
    } else {
        missing(blocks.drop_last()) + (if blocks.last() {
            0nat
        } else {
            1nat
        })
    }
}

/// No block is missing if and only if every block is done.
pub proof fn none_missing(blocks: Seq<bool>)
    ensures
        (missing(blocks) == 0) == (forall|i: int| 0 <= i < blocks.len() ==> blocks[i]),
        missing(blocks) <= blocks.len(),
    decreases blocks.len(),
{
    if blocks.len() > 0 {
        let h = blocks.drop_last();
        none_missing(h);
        assert(blocks[blocks.len() - 1] == blocks.last());
        if missing(blocks) == 0 {
            assert forall|i: int| 0 <= i < blocks.len() implies blocks[i] by {
                if i < h.len() {
                    assert(h[i]);
                }
            }
        }
        if forall|i: int| 0 <= i < blocks.len() ==> blocks[i] {
            assert forall|i: int| 0 <= i < h.len() implies h[i] by {
                assert(blocks[i]);
            }
        }
    }
}

/// Mutable view into a checkpoint's block completion state.
#[derive(Debug)]
pub struct ResumeState<'a> {
    /// Which blocks have been written.
    pub completed_blocks: &'a mut Vec<bool>,
}

/// The blocks after one was marked; there is nothing to mark behind the last.
pub open spec fn marked(blocks: Seq<bool>, idx: int) -> Seq<bool> {
    if 0 <= idx < blocks.len() {
        blocks.update(idx, true)
    } else {
        blocks
    }
}

/// Marking a missing block leaves one less missing, and marks nothing else.
pub proof fn marking_counts(blocks: Seq<bool>, idx: int)
    requires
        0 <= idx < blocks.len(),
    ensures
        missing(marked(blocks, idx)) == missing(blocks) - (if blocks[idx] {
            0int
        } else {
            1
        }),
        forall|i: int| 0 <= i < blocks.len() && i != idx ==> marked(blocks, idx)[i] == blocks[i],
    decreases blocks.len(),
{
    let m = marked(blocks, idx);
    if idx == blocks.len() - 1 {
        assert(m.drop_last() =~= blocks.drop_last());
    } else {
        marking_counts(blocks.drop_last(), idx);
        assert(m.drop_last() =~= marked(blocks.drop_last(), idx));
    }
}

impl<'a> ResumeState<'a> {
    /// The blocks that are done.
    pub open spec fn blocks(&self) -> Seq<bool> {
        self.completed_blocks@
    }

    /// Number of blocks still remaining.
    pub fn blocks_remaining(&self) -> (r: usize)
        ensures
            r == missing(self.blocks()),
    {
        let mut n: usize = 0;
        let mut i: usize = 0;
        let ghost all = self.completed_blocks@;
        while i < self.completed_blocks.len()
            invariant
                i <= self.completed_blocks.len(),
                all == self.completed_blocks@,
                n == missing(all.take(i as int)),
                n <= i,
            decreases self.completed_blocks.len() - i,
        {
            assert(all.take(i + 1).drop_last() =~= all.take(i as int));
            if !self.completed_blocks[i] {
                n = n + 1;
            }
            i = i + 1;
        }
        assert(all.take(i as int) =~= all);
        n
    }

    /// Whether the given block index has been completed.
    pub fn is_block_done(&self, idx: usize) -> (r: bool)
        ensures
            r == (idx < self.blocks().len() && self.blocks()[idx as int]),
    {
        if idx < self.completed_blocks.len() {
            self.completed_blocks[idx]
        } else {
            false
        }
    }

    /// Mark a block as completed.
    pub fn mark_block_done(&mut self, idx: usize)
        ensures
            final(self).blocks() == marked(old(self).blocks(), idx as int),
            final(final(self).completed_blocks)@ == final(old(self).completed_blocks)@,
    {
        if idx < self.completed_blocks.len() {
            self.completed_blocks.set(idx, true);
        }
    }

    /// Whether all blocks are done.
    pub fn all_done(&self) -> (r: bool)
        ensures
            r == (forall|i: int| 0 <= i < self.blocks().len() ==> self.blocks()[i]),
    {
        let mut i: usize = 0;
        while i < self.completed_blocks.len()
            invariant
                i <= self.completed_blocks.len(),
                forall|j: int| 0 <= j < i ==> self.completed_blocks@[j],
            decreases self.completed_blocks.len() - i,
        {
            if !self.completed_blocks[i] {
                assert(!self.blocks()[i as int]);
                return false;
            }
            i = i + 1;
        }
        true
    }
}

// ---------------------------------------------------------------------------
// The file
// ---------------------------------------------------------------------------

/// The value of a bit in a byte.
pub open spec fn weight(bit: int) -> int {
    if bit == 0 {
        1
    } else if bit == 1 {
        2
    } else if bit == 2 {
        4
    } else if bit == 3 {
        8
    } else if bit == 4 {
        16
    } else if bit == 5 {
        32
    } else if bit == 6 {
        64
    } else {
        128
    }
}

fn weight_of(bit: usize) -> (r: u8)
    requires
        bit < 8,
    ensures
        r == weight(bit as int),
{
    if bit == 0 {
        1
    } else if bit == 1 {
        2
    } else if bit == 2 {
        4
    } else if bit == 3 {
        8
    } else if bit == 4 {
        16
    } else if bit == 5 {
        32
    } else if bit == 6 {
        64
    } else {
        128
    }
}

/// One where a block is done, nothing where it is not or does not exist.
pub open spec fn done_bit(blocks: Seq<bool>, i: int) -> int {
    if 0 <= i < blocks.len() && blocks[i] {
        1
    } else {
        0
    }
}

/// The first blocks of a group of eight as a number, the first block lowest.
pub open spec fn group_value(blocks: Seq<bool>, group: int, bits: nat) -> int
    decreases bits,
{
    if bits == 0 {
        0
    } else {
        group_value(blocks, group, (bits - 1) as nat) + weight(bits - 1) * done_bit(
            blocks,
            8 * group + bits - 1,
        )
    }
}

/// How many bytes hold a number of bits.
pub open spec fn packed_len(n: int) -> int {
    (n + 7) / 8
}

/// Blocks packed eight to a byte, the first block lowest.
pub open spec fn packed(blocks: Seq<bool>) -> Seq<u8> {
    Seq::new(packed_len(blocks.len() as int) as nat, |k: int| group_value(blocks, k, 8) as u8)
}

/// The bits of packed blocks.
pub open spec fn unpacked(bytes: Seq<u8>, count: int) -> Seq<bool> {
    Seq::new(count as nat, |i: int| (bytes[i / 8] as int / weight(i % 8)) % 2 == 1)
}

proof fn group_digits(blocks: Seq<bool>, k: int)
    ensures
        group_value(blocks, k, 8) == done_bit(blocks, 8 * k) + 2 * done_bit(blocks, 8 * k + 1) + 4
            * done_bit(blocks, 8 * k + 2) + 8 * done_bit(blocks, 8 * k + 3) + 16 * done_bit(
            blocks,
            8 * k + 4,
        ) + 32 * done_bit(blocks, 8 * k + 5) + 64 * done_bit(blocks, 8 * k + 6) + 128 * done_bit(
            blocks,
            8 * k + 7,
        ),
        0 <= group_value(blocks, k, 8) < 256,
{
    reveal_with_fuel(group_value, 9);
}

/// Packed blocks are unpacked to what they were.
pub proof fn packing_read_back(blocks: Seq<bool>)
    ensures
        unpacked(packed(blocks), blocks.len() as int) == blocks,
{
    let p = packed(blocks);
    assert forall|i: int| 0 <= i < blocks.len() implies ((p[i / 8] as int / weight(i % 8)) % 2
        == 1) == blocks[i] by {
        let k = i / 8;
        group_digits(blocks, k);
        assert(0 <= k < p.len());
        let v = group_value(blocks, k, 8);
        assert(p[k] == v);
        let a0 = done_bit(blocks, 8 * k);
        let a1 = done_bit(blocks, 8 * k + 1);
        let a2 = done_bit(blocks, 8 * k + 2);
        let a3 = done_bit(blocks, 8 * k + 3);
        let a4 = done_bit(blocks, 8 * k + 4);
        let a5 = done_bit(blocks, 8 * k + 5);
        let a6 = done_bit(blocks, 8 * k + 6);
        let a7 = done_bit(blocks, 8 * k + 7);
        let b = i % 8;
        assert(i == 8 * k + b);
        if b == 0 {
            assert(v % 2 == a0);
        } else if b == 1 {
            assert((v / 2) % 2 == a1);
        } else if b == 2 {
            assert((v / 4) % 2 == a2);
        } else if b == 3 {
            assert((v / 8) % 2 == a3);
        } else if b == 4 {
            assert((v / 16) % 2 == a4);
        } else if b == 5 {
            assert((v / 32) % 2 == a5);
        } else if b == 6 {
            assert((v / 64) % 2 == a6);
        } else {
            assert((v / 128) % 2 == a7);
        }
    }
    assert(unpacked(p, blocks.len() as int) =~= blocks);
}

/// The path of a checkpoint as it is stored.
pub open spec fn stored_path(path: Seq<u8>) -> Seq<u8> {
    encode_utf8(lossy_text(path))
}

/// The blocks of a checkpoint as they are stored: their number has 32 bits.
pub open spec fn stored_blocks(blocks: Seq<bool>) -> Seq<bool> {
    blocks.take((blocks.len() as u32) as int)
}

/// The bytes of a checkpoint behind its path.
pub open spec fn tail_bytes(c: CheckpointView) -> Seq<u8> {
    le_bytes(c.file_size as nat, 8) + (le_bytes(c.block_size as nat, 8) + (le_bytes(
        u32_of(c.checksum_seed),
        4,
    ) + (le_bytes(u64_of(c.timestamp), 8) + (le_bytes(
        (c.completed_blocks.len() as u32) as nat,
        4,
    ) + packed(stored_blocks(c.completed_blocks))))))
}

/// The bytes of a checkpoint file.
pub open spec fn checkpoint_bytes(c: CheckpointView) -> Seq<u8> {
    magic() + (seq![VERSION] + (le_bytes((stored_path(c.file_path).len() as u32) as nat, 4) + (
    stored_path(c.file_path) + tail_bytes(c))))
}

/// A number at the start of some bytes, and what follows it.
pub open spec fn number_first(d: Seq<u8>, n: int) -> Option<(nat, Seq<u8>)> {
    if d.len() < n {
        None
    } else {
        Some((le_value(d.take(n)), d.skip(n)))
    }
}

/// The part of a checkpoint behind its path.
pub open spec fn tail_of(path: Seq<u8>, d: Seq<u8>) -> Option<CheckpointView> {
    match number_first(d, 8) {
        None => None,
        Some((file_size, d1)) => match number_first(d1, 8) {
            None => None,
            Some((block_size, d2)) => match number_first(d2, 4) {
                None => None,
                Some((seed, d3)) => match number_first(d3, 8) {
                    None => None,
                    Some((stamp, d4)) => match number_first(d4, 4) {
                        None => None,
                        Some((count, d5)) => if d5.len() < packed_len(count as int) {
                            None
                        } else {
                            Some(
                                CheckpointView {
                                    file_path: path,
                                    file_size: file_size as u64,
                                    block_size: (block_size as u64) as usize,
                                    completed_blocks: unpacked(d5, count as int),
                                    checksum_seed: i32_of(seed),
                                    timestamp: i64_of(stamp),
                                },
                            )
                        },
                    },
                },
            },
        },
    }
}

/// The checkpoint that a file holds, if it holds one.
pub open spec fn checkpoint_of(data: Seq<u8>) -> Option<CheckpointView> {
    if data.len() < 9 || data.take(8) != magic() || data[8] != VERSION {
        None
    } else {
        match number_first(data.skip(9), 4) {
            None => None,
            Some((len, d)) => if d.len() < len || !valid_utf8(d.take(len as int)) {
                None
            } else {
                tail_of(d.take(len as int), d.skip(len as int))
            },
        }
    }
}

proof fn number_read_back(v: nat, n: nat, rest: Seq<u8>)
    requires
        n == 4 ==> v < 0x1_0000_0000,
        n == 8 ==> v < 0x1_0000_0000_0000_0000,
        n == 4 || n == 8,
    ensures
        number_first(le_bytes(v, n) + rest, n as int) == Some((v, rest)),
{
    byte_range_values();
    le_bytes_len(v, n);
    le_read_back(v, n);
    let d = le_bytes(v, n) + rest;
    assert(d.take(n as int) =~= le_bytes(v, n));
    assert(d.skip(n as int) =~= rest);
}

/// A checkpoint that was written is read back as it was. Its path has to be
/// UTF-8, and path and number of blocks have to fit the file's counters.
pub proof fn checkpoint_read_back(c: CheckpointView)
    requires
        valid_utf8(c.file_path),
        c.file_path.len() <= 0xFFFF_FFFF,
        c.completed_blocks.len() <= 0xFFFF_FFFF,
    ensures
        checkpoint_of(checkpoint_bytes(c)) == Some(c),
{
    let data = checkpoint_bytes(c);
    valid_text_is_kept(c.file_path);
    let path = c.file_path;
    let tail = tail_bytes(c);
    let len = path.len();
    assert(stored_path(path) == path);
    assert((len as u32) as nat == len);
    assert(data.take(8) =~= magic());
    let body = le_bytes(len, 4) + (path + tail);
    assert(data.skip(9) =~= body);
    assert(data[8] == VERSION);
    number_read_back(len, 4, path + tail);
    let d = path + tail;
    assert(d.take(len as int) =~= path);
    assert(d.skip(len as int) =~= tail);
    tail_read_back(c);
}

proof fn tail_read_back(c: CheckpointView)
    requires
        c.completed_blocks.len() <= 0xFFFF_FFFF,
    ensures
        tail_of(c.file_path, tail_bytes(c)) == Some(c),
{
    let blocks = c.completed_blocks;
    let n = blocks.len();
    assert((n as u32) as nat == n);
    assert(stored_blocks(blocks) =~= blocks);
    let e = packed(blocks);
    let d4 = le_bytes(n, 4) + e;
    let d3 = le_bytes(u64_of(c.timestamp), 8) + d4;
    let d2 = le_bytes(u32_of(c.checksum_seed), 4) + d3;
    let d1 = le_bytes(c.block_size as nat, 8) + d2;
    number_read_back(n, 4, e);
    number_read_back(u64_of(c.timestamp), 8, d4);
    number_read_back(u32_of(c.checksum_seed), 4, d3);
    number_read_back(c.block_size as nat, 8, d2);
    number_read_back(c.file_size as nat, 8, d1);
    packing_read_back(blocks);
    assert(i32_of(u32_of(c.checksum_seed)) == c.checksum_seed);
    assert(i64_of(u64_of(c.timestamp)) == c.timestamp);
}

/// A number is read from a start of its bytes and what follows them only
/// where the start holds all of them.
proof fn number_of_start(v: nat, n: nat, rest: Seq<u8>, m: int)
    requires
        n == 4 ==> v < 0x1_0000_0000,
        n == 8 ==> v < 0x1_0000_0000_0000_0000,
        n == 4 || n == 8,
        0 <= m <= n + rest.len(),
    ensures
        (le_bytes(v, n) + rest).len() == n + rest.len(),
        number_first((le_bytes(v, n) + rest).take(m), n as int) == (if m < n {
            None
        } else {
            Some((v, rest.take(m - n)))
        }),
{
    byte_range_values();
    le_bytes_len(v, n);
    le_read_back(v, n);
    let d = (le_bytes(v, n) + rest).take(m);
    if m >= n {
        assert(d.take(n as int) =~= le_bytes(v, n));
        assert(d.skip(n as int) =~= rest.take(m - n));
    }
}

proof fn tail_cut_off(c: CheckpointView, path: Seq<u8>, m: int)
    requires
        c.completed_blocks.len() <= 0xFFFF_FFFF,
        0 <= m < tail_bytes(c).len(),
    ensures
        tail_of(path, tail_bytes(c).take(m)) is None,
{
    let blocks = c.completed_blocks;
    let n = blocks.len();
    assert((n as u32) as nat == n);
    assert(stored_blocks(blocks) =~= blocks);
    let e = packed(blocks);
    let d4 = le_bytes(n, 4) + e;
    let d3 = le_bytes(u64_of(c.timestamp), 8) + d4;
    let d2 = le_bytes(u32_of(c.checksum_seed), 4) + d3;
    let d1 = le_bytes(c.block_size as nat, 8) + d2;
    number_of_start(n, 4, e, 0);
    number_of_start(u64_of(c.timestamp), 8, d4, 0);
    number_of_start(u32_of(c.checksum_seed), 4, d3, 0);
    number_of_start(c.block_size as nat, 8, d2, 0);
    number_of_start(c.file_size as nat, 8, d1, 0);
    number_of_start(c.file_size as nat, 8, d1, m);
    if m >= 8 {
        number_of_start(c.block_size as nat, 8, d2, m - 8);
    }
    if m >= 16 {
        number_of_start(u32_of(c.checksum_seed), 4, d3, m - 16);
    }
    if m >= 20 {
        number_of_start(u64_of(c.timestamp), 8, d4, m - 20);
    }
    if m >= 28 {
        number_of_start(n, 4, e, m - 28);
    }
}

/// A checkpoint file that was cut off anywhere holds no checkpoint. Path and
/// number of blocks have to fit the file's counters.
pub proof fn cut_off_is_none(c: CheckpointView, n: int)
    requires
        stored_path(c.file_path).len() <= 0xFFFF_FFFF,
        c.completed_blocks.len() <= 0xFFFF_FFFF,
        0 <= n < checkpoint_bytes(c).len(),
    ensures
        checkpoint_of(checkpoint_bytes(c).take(n)) is None,
{
    let data = checkpoint_bytes(c);
    let path = stored_path(c.file_path);
    let len = path.len();
    let tail = tail_bytes(c);
    let t = data.take(n);
    assert((len as u32) as nat == len);
    let body = le_bytes(len, 4) + (path + tail);
    assert(data.skip(9) =~= body);
    number_of_start(len, 4, path + tail, 0);
    if n >= 9 {
        assert(t.skip(9) =~= body.take(n - 9));
        number_of_start(len, 4, path + tail, n - 9);
    }
    if n >= 13 {
        let d = (path + tail).take(n - 13);
        if n - 13 >= len {
            let m = n - 13 - len;
            assert(d.take(len as int) =~= path);
            assert(d.skip(len as int) =~= tail.take(m));
            tail_cut_off(c, path, m);
        }
    }
}

/// A checkpoint file with another byte in its magic or its version holds no
/// checkpoint, whatever follows.
pub proof fn changed_head_is_none(c: CheckpointView, i: int, b: u8)
    requires
        0 <= i < 9,
        b != checkpoint_bytes(c)[i],
    ensures
        checkpoint_of(checkpoint_bytes(c).update(i, b)) is None,
{
    let data = checkpoint_bytes(c);
    let t = data.update(i, b);
    assert(data.take(8) =~= magic());
    assert(data[8] == VERSION);
    if i < 8 {
        assert(t.take(8)[i] == b);
        assert(data.take(8)[i] == data[i]);
    }
}

/// The error for a file that holds no checkpoint.
pub open spec fn corrupt() -> FsErrorView {
    FsErrorView::Io {
        path: encode_utf8("<checkpoint>"@),
        source: IoFailureView {
            kind: IoErrorKind::InvalidData,
            message: "corrupt checkpoint file"@,
        },
    }
}

fn corrupt_error() -> (r: FsError)
    ensures
        r@ == corrupt(),
{
    FsError::Io {
        path: vstd::slice::slice_to_vec("<checkpoint>".as_bytes()),
        source: IoFailure {
            kind: IoErrorKind::InvalidData,
            message: from_chars(to_chars("corrupt checkpoint file").as_slice()),
        },
    }
}

/// Reads a number and goes past it.
fn take_number(data: &[u8], pos: &mut usize, n: usize) -> (r: Option<u64>)
    requires
        *old(pos) <= data.len(),
        n <= 8,
    ensures
        *final(pos) <= data.len(),
        match number_first(data@.skip(*old(pos) as int), n as int) {
            Some((v, rest)) => r == Some(v as u64) && v <= u64::MAX && rest == data@.skip(
                *final(pos) as int,
            ),
            None => r is None,
        },
{
    let p: usize = *pos;
    if data.len() - p < n {
        return None;
    }
    let v: u64 = get_le(data, p, n);
    *pos = p + n;
    proof {
        assert(data@.skip(p as int).take(n as int) =~= data@.subrange(p as int, p + n));
        assert(data@.skip(p as int).skip(n as int) =~= data@.skip(p + n));
    }
    Some(v)
}

/// What stands in a checkpoint's name where its file has none.
pub open spec fn unknown_name() -> Seq<char> {
    "unknown"@
}

/// Manages checkpoint files.
pub struct CheckpointFile;

impl CheckpointFile {
    /// The name of the checkpoint file for a given transfer file.
    pub fn ckpt_name(filename: &str) -> (r: String)
        ensures
            r@ == ".ferrosync.ckpt."@ + filename@,
    {
        let mut out: Vec<char> = Vec::new();
        push_text(&mut out, ".ferrosync.ckpt.");
        push_text(&mut out, filename);
        assert(out@ =~= ".ferrosync.ckpt."@ + filename@);
        from_chars(out.as_slice())
    }

    /// The name of the file that a checkpoint is about.
    pub fn transfer_name(checkpoint: &Checkpoint) -> (r: String)
        ensures
            r@ == (match file_name_of(checkpoint.file_path@) {
                Some(n) => lossy_text(n),
                None => unknown_name(),
            }),
    {
        match path_file_name(checkpoint.file_path.as_slice()) {
            Some(n) => lossy_string(n.as_slice()),
            None => from_chars(to_chars("unknown").as_slice()),
        }
    }

    /// Serialize a checkpoint to bytes.
    pub fn serialize(checkpoint: &Checkpoint) -> (r: Vec<u8>)
        ensures
            r@ == checkpoint_bytes(checkpoint@),
    {
        let ghost c = checkpoint@;
        let mut buf: Vec<u8> = Vec::new();
        buf.push(0x46);
        buf.push(0x53);
        buf.push(0x43);
        buf.push(0x4B);
        buf.push(0x50);
        buf.push(0x54);
        buf.push(0);
        buf.push(1);
        assert(buf@ =~= magic());
        buf.push(VERSION);
        let path = lossy_string(checkpoint.file_path.as_slice());
        let path_bytes = path.as_str().as_bytes();
        push_le(&mut buf, path_bytes.len() as u32 as u64, 4);
        write_bytes(&mut buf, path_bytes);
        push_tail(&mut buf, checkpoint);
        proof {
            let v = seq![VERSION];
            let len = le_bytes((stored_path(c.file_path).len() as u32) as nat, 4);
            let p = stored_path(c.file_path);
            let t = tail_bytes(c);
            assert(buf@ == magic().push(VERSION) + len + p + t);
            assert(magic().push(VERSION) =~= magic() + v);
            assert(magic() + v + len + p + t =~= magic() + (v + (len + (p + t))));
        }
        buf
    }

    /// Deserialize a checkpoint from bytes.
    pub fn deserialize(data: &[u8]) -> (r: Result<Checkpoint, FsError>)
        ensures
            match r {
                Ok(c) => checkpoint_of(data@) == Some(c@),
                Err(e) => checkpoint_of(data@) is None && e@ == corrupt(),
            },
    {
        if data.len() < 9 {
            return Err(corrupt_error());
        }
        let start = vstd::slice::slice_subrange(data, 0, 8);
        assert(start@ =~= data@.take(8));
        if !is_magic(start) || data[8] != VERSION {
            return Err(corrupt_error());
        }
        let mut pos: usize = 9;
        let path_len: usize = match take_number(data, &mut pos, 4) {
            Some(n) => {
                proof {
                    le_value_is_small(data@.skip(9).take(4));
                }
                n as usize
            },
            None => {
                return Err(corrupt_error());
            },
        };
        if data.len() - pos < path_len {
            return Err(corrupt_error());
        }
        let raw = vstd::slice::slice_subrange(data, pos, pos + path_len);
        assert(raw@ =~= data@.skip(pos as int).take(path_len as int));
        let file_path: Vec<u8> = match utf8_string(raw) {
            Some(_) => vstd::slice::slice_to_vec(raw),
            None => {
                return Err(corrupt_error());
            },
        };
        let ghost before = pos;
        pos = pos + path_len;
        assert(data@.skip(before as int).skip(path_len as int) =~= data@.skip(pos as int));
        match take_tail(data, pos, file_path) {
            Some(c) => Ok(c),
            None => Err(corrupt_error()),
        }
    }
}

/// Four bytes hold 32 bits.
proof fn le_value_is_small(s: Seq<u8>)
    requires
        s.len() == 4,
    ensures
        le_value(s) < 0x1_0000_0000,
{
    byte_range_values();
    crate::protocol::wire::le_value_bound(s);
}

fn is_magic(s: &[u8]) -> (r: bool)
    requires
        s.len() == 8,
    ensures
        r == (s@ == magic()),
{
    let r = s[0] == 0x46 && s[1] == 0x53 && s[2] == 0x43 && s[3] == 0x4B && s[4] == 0x50 && s[5]
        == 0x54 && s[6] == 0 && s[7] == 1;
    proof {
        if r {
            assert(s@ =~= magic());
        } else if s@ == magic() {
            assert(s@[0] == 0x46 && s@[1] == 0x53 && s@[2] == 0x43 && s@[3] == 0x4B);
            assert(s@[4] == 0x50 && s@[5] == 0x54 && s@[6] == 0 && s@[7] == 1);
        }
    }
    r
}

/// Appends the first blocks, packed.
fn push_packed(buf: &mut Vec<u8>, blocks: &[bool], count: u32)
    requires
        count <= blocks.len(),
    ensures
        final(buf)@ == old(buf)@ + packed(blocks@.take(count as int)),
{
    let ghost had = buf@;
    let ghost list = blocks@.take(count as int);
    let n: usize = count as usize;
    let bytes: usize = groups(n, 8);
    let mut k: usize = 0;
    assert(packed(list).take(0) =~= Seq::empty());
    assert(had + Seq::<u8>::empty() =~= had);
    while k < bytes
        invariant
            n == count,
            n <= blocks.len(),
            list == blocks@.take(count as int),
            bytes == packed_len(n as int),
            k <= bytes,
            bytes <= 0x2000_0000,
            buf@ == had + packed(list).take(k as int),
        decreases bytes - k,
    {
        let mut byte: u8 = 0;
        let mut bit: usize = 0;
        while bit < 8
            invariant
                n == list.len(),
                n <= blocks.len(),
                list == blocks@.take(count as int),
                n == count,
                bit <= 8,
                k < 0x2000_0000,
                byte == group_value(list, k as int, bit as nat),
                byte < (if bit == 8 {
                    256
                } else {
                    weight(bit as int)
                }),
            decreases 8 - bit,
        {
            let idx: usize = k * 8 + bit;
            proof {
                let w = weight(bit as int);
                let d = done_bit(list, 8 * k + bit as int);
                assert(d == (if idx < n && blocks@[idx as int] {
                    1int
                } else {
                    0int
                }));
                assert(w * d == (if d == 1 {
                    w
                } else {
                    0
                })) by (nonlinear_arith)
                    requires
                        d == 0 || d == 1,
                ;
                assert(group_value(list, k as int, (bit + 1) as nat) == group_value(
                    list,
                    k as int,
                    bit as nat,
                ) + w * d);
            }
            if idx < n && blocks[idx] {
                byte = byte + weight_of(bit);
            }
            bit = bit + 1;
        }
        buf.push(byte);
        proof {
            let p = packed(list);
            assert(p[k as int] == byte);
            assert(p.take(k + 1) =~= p.take(k as int).push(byte));
            assert((had + p.take(k as int)).push(byte) =~= had + p.take(k + 1));
        }
        k = k + 1;
    }
    assert(packed(list).take(k as int) =~= packed(list));
}

/// Appends what stands behind the path.
fn push_tail(buf: &mut Vec<u8>, checkpoint: &Checkpoint)
    ensures
        final(buf)@ == old(buf)@ + tail_bytes(checkpoint@),
{
    let ghost c = checkpoint@;
    push_le(buf, checkpoint.file_size, 8);
    push_le(buf, checkpoint.block_size as u64, 8);
    push_le(buf, as_u32(checkpoint.checksum_seed) as u64, 4);
    push_le(buf, as_u64(checkpoint.timestamp), 8);
    let count: u32 = checkpoint.completed_blocks.len() as u32;
    push_le(buf, count as u64, 4);
    push_packed(buf, checkpoint.completed_blocks.as_slice(), count);
    proof {
        assert(checkpoint.completed_blocks@.take(count as int) =~= stored_blocks(
            c.completed_blocks,
        ));
        let h = old(buf)@;
        let b1 = le_bytes(c.file_size as nat, 8);
        let b2 = le_bytes(c.block_size as nat, 8);
        let b3 = le_bytes(u32_of(c.checksum_seed), 4);
        let b4 = le_bytes(u64_of(c.timestamp), 8);
        let b5 = le_bytes(count as nat, 4);
        let b6 = packed(stored_blocks(c.completed_blocks));
        assert(buf@ == h + b1 + b2 + b3 + b4 + b5 + b6);
        assert(h + b1 + b2 + b3 + b4 + b5 + b6 =~= h + (b1 + (b2 + (b3 + (b4 + (b5 + b6))))));
    }
}

/// Reads what stands behind the path.
fn take_tail(data: &[u8], start: usize, file_path: Vec<u8>) -> (r: Option<Checkpoint>)
    requires
        start <= data.len(),
    ensures
        match r {
            Some(c) => tail_of(file_path@, data@.skip(start as int)) == Some(c@),
            None => tail_of(file_path@, data@.skip(start as int)) is None,
        },
{
    let mut pos: usize = start;
    let file_size: u64 = match take_number(data, &mut pos, 8) {
        Some(n) => n,
        None => {
            return None;
        },
    };
    let block_size: u64 = match take_number(data, &mut pos, 8) {
        Some(n) => n,
        None => {
            return None;
        },
    };
    let ghost d2 = data@.skip(pos as int);
    let seed: u64 = match take_number(data, &mut pos, 4) {
        Some(n) => n,
        None => {
            return None;
        },
    };
    let stamp: u64 = match take_number(data, &mut pos, 8) {
        Some(n) => n,
        None => {
            return None;
        },
    };
    let ghost d4 = data@.skip(pos as int);
    let count: u64 = match take_number(data, &mut pos, 4) {
        Some(n) => n,
        None => {
            return None;
        },
    };
    proof {
        le_value_is_small(d2.take(4));
        le_value_is_small(d4.take(4));
    }
    let n: usize = count as usize;
    if data.len() - pos < groups(n, 8) {
        return None;
    }
    let ghost d5 = data@.skip(pos as int);
    let mut blocks: Vec<bool> = Vec::new();
    let mut i: usize = 0;
    while i < n
        invariant
            i <= n,
            pos <= data.len(),
            d5 == data@.skip(pos as int),
            d5.len() >= packed_len(n as int),
            blocks@ == unpacked(d5, n as int).take(i as int),
        decreases n - i,
    {
        let byte: u8 = data[pos + i / 8];
        let done = (byte / weight_of(i % 8)) % 2 == 1;
        blocks.push(done);
        proof {
            let u = unpacked(d5, n as int);
            assert(d5[i as int / 8] == byte);
            assert(u[i as int] == done);
            assert(u.take(i + 1) =~= u.take(i as int).push(done));
        }
        i = i + 1;
    }
    assert(unpacked(d5, n as int).take(n as int) =~= unpacked(d5, n as int));
    Some(
        Checkpoint {
            file_path,
            file_size,
            block_size: block_size as usize,
            completed_blocks: blocks,
            checksum_seed: as_i32(seed as u32),
            timestamp: as_i64(stamp),
        },
    )
}

} // verus!
