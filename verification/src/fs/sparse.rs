//! How file data is laid down: with holes, or by mapping.

use vstd::prelude::*;

use crate::fs::metadata::MMAP_THRESHOLD;

verus! {

/// The length of the blocks that can become holes.
pub const SPARSE_BLOCK: usize = 4096;

/// A block of file data.
#[derive(Debug, Clone, Copy, PartialEq, Eq, Structural)]
pub struct SparsePiece {
    /// Where the block starts.
    pub start: usize,
    /// Where it ends.
    pub end: usize,
    /// Whether it is left out, because it holds zeros only.
    pub hole: bool,
}

/// Data that holds zeros only.
pub open spec fn all_zero(s: Seq<u8>) -> bool {
    forall|i: int| 0 <= i < s.len() ==> #[trigger] s[i] == 0
}

/// Where the block that starts at a place ends.
pub open spec fn block_end(data: Seq<u8>, start: int) -> int {
    if start + SPARSE_BLOCK <= data.len() {
        start + SPARSE_BLOCK
    } else {
        data.len() as int
    }
}

/// The blocks of data from a place on.
pub open spec fn pieces_from(data: Seq<u8>, start: int) -> Seq<SparsePiece>
    decreases data.len() - start,
{
    if start < 0 || start >= data.len() {
        Seq::empty()
    } else {
        let end = block_end(data, start);
        seq![
            SparsePiece {
                start: start as usize,
                end: end as usize,
                hole: all_zero(data.subrange(start, end)),
            },
        ] + pieces_from(data, end)
    }
}

fn is_all_zero(data: &[u8], start: usize, end: usize) -> (r: bool)
    requires
        start <= end <= data.len(),
    ensures
        r == all_zero(data@.subrange(start as int, end as int)),
{
    let ghost s = data@.subrange(start as int, end as int);
    let mut i: usize = start;
    while i < end
        invariant
            start <= i <= end <= data.len(),
            s == data@.subrange(start as int, end as int),
            forall|j: int| 0 <= j < i - start ==> #[trigger] s[j] == 0,
        decreases end - i,
    {
        if data[i] != 0 {
            assert(s[i - start] != 0);
            return false;
        }
        i = i + 1;
    }
    true
}

/// Cuts data into blocks and says which of them become holes.
pub fn sparse_pieces(data: &[u8]) -> (r: Vec<SparsePiece>)
    ensures
        r@ == pieces_from(data@, 0),
{
    let mut out: Vec<SparsePiece> = Vec::new();
    let mut start: usize = 0;
    assert(out@ + pieces_from(data@, 0) =~= pieces_from(data@, 0));
    while start < data.len()
        invariant
            start <= data.len(),
            out@ + pieces_from(data@, start as int) == pieces_from(data@, 0),
        decreases data.len() - start,
    {
        let end: usize = if data.len() - start >= SPARSE_BLOCK {
            start + SPARSE_BLOCK
        } else {
            data.len()
        };
        let hole = is_all_zero(data, start, end);
        let ghost had = out@;
        let piece = SparsePiece { start, end, hole };
        out.push(piece);
        proof {
            let rest = pieces_from(data@, end as int);
            assert(had + (seq![piece] + rest) =~= had.push(piece) + rest);
        }
        start = end;
    }
    assert(out@ + Seq::<SparsePiece>::empty() =~= out@);
    out
}

/// What a file holds after blocks were laid down: what was written, and zeros
/// in the holes.
pub open spec fn laid_down(data: Seq<u8>, pieces: Seq<SparsePiece>) -> Seq<u8>
    decreases pieces.len(),
{
    if pieces.len() == 0 {
        Seq::empty()
    } else {
        let p = pieces[0];
        (if p.hole {
            Seq::new((p.end - p.start) as nat, |i: int| 0u8)
        } else {
            data.subrange(p.start as int, p.end as int)
        }) + laid_down(data, pieces.drop_first())
    }
}

/// Holes lose nothing: what is laid down is the data.
pub proof fn holes_lose_nothing(data: Seq<u8>, start: int)
    requires
        0 <= start <= data.len() <= usize::MAX,
    ensures
        laid_down(data, pieces_from(data, start)) == data.skip(start),
    decreases data.len() - start,
{
    if start < data.len() {
        let end = block_end(data, start);
        holes_lose_nothing(data, end);
        let ps = pieces_from(data, start);
        assert(ps.drop_first() =~= pieces_from(data, end));
        let block = data.subrange(start, end);
        if all_zero(block) {
            assert(Seq::new((end - start) as nat, |i: int| 0u8) =~= block) by {
                assert forall|i: int| 0 <= i < end - start implies #[trigger] block[i] == 0 by {}
            }
        }
        assert(block + data.skip(end) =~= data.skip(start));
    } else {
        assert(data.skip(start) =~= Seq::<u8>::empty());
    }
}

/// How the contents of a file are had.
#[derive(Debug, Clone, Copy, PartialEq, Eq, Structural)]
pub enum MapChoice {
    /// There are none.
    Empty,
    /// They are read.
    Read,
    /// They are mapped.
    Mapped,
}

/// How the contents of a file of a length are had.
pub fn map_choice(len: i64) -> (r: MapChoice)
    ensures
        r == (if len == 0 {
            MapChoice::Empty
        } else if len < MMAP_THRESHOLD {
            MapChoice::Read
        } else {
            MapChoice::Mapped
        }),
{
    if len == 0 {
        MapChoice::Empty
    } else if len < MMAP_THRESHOLD {
        MapChoice::Read
    } else {
        MapChoice::Mapped
    }
}

/// Whether permissions let nobody write.
pub fn is_read_only(mode: u32) -> (r: bool)
    ensures
        r == (mode & 0o222 == 0),
{
    mode & 0o222 == 0
}

} // verus!
