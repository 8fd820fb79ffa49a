//! The head of a list of block signatures.

use vstd::prelude::*;

use crate::error::{ProtocolError, ProtocolErrorView};
use crate::protocol::varint::{int_at, int_bytes, int_read_back, read_int, write_int};
use crate::protocol::wire::{holds_at, holds_split, read_as, WireReader};

verus! {

/// The block length that is used where none was agreed on.
pub const DEFAULT_BLOCK_LENGTH: usize = 700;

/// How a file was cut into blocks.
#[derive(Debug, Clone, Copy, PartialEq, Eq, Structural)]
pub struct SumHead {
    /// The number of blocks.
    pub count: i32,
    /// The length of a block.
    pub blength: i32,
    /// The length of a strong checksum.
    pub s2length: i32,
    /// The length of the last block, where it is shorter.
    pub remainder: i32,
}

/// A head of no blocks.
pub open spec fn empty_head() -> SumHead {
    SumHead { count: 0, blength: 0, s2length: 0, remainder: 0 }
}

/// The bytes of a head.
pub open spec fn sum_head_bytes(h: SumHead) -> Seq<u8> {
    int_bytes(h.count) + int_bytes(h.blength) + int_bytes(h.s2length) + int_bytes(h.remainder)
}

/// The head at a position.
pub open spec fn sum_head_at(s: Seq<u8>, p: int) -> Result<(SumHead, int), ProtocolErrorView> {
    match int_at(s, p) {
        Err(e) => Err(e),
        Ok((count, a)) => match int_at(s, a) {
            Err(e) => Err(e),
            Ok((blength, b)) => match int_at(s, b) {
                Err(e) => Err(e),
                Ok((s2length, c)) => match int_at(s, c) {
                    Err(e) => Err(e),
                    Ok((remainder, d)) => Ok((SumHead { count, blength, s2length, remainder }, d)),
                },
            },
        },
    }
}

/// Writes a head.
pub fn write_sum_head(w: &mut Vec<u8>, head: &SumHead)
    ensures
        final(w)@ == old(w)@ + sum_head_bytes(*head),
{
    write_int(w, head.count);
    write_int(w, head.blength);
    write_int(w, head.s2length);
    write_int(w, head.remainder);
    assert(w@ =~= old(w)@ + sum_head_bytes(*head));
}

/// Reads a head.
pub fn read_sum_head(r: &mut WireReader) -> (res: Result<SumHead, ProtocolError>)
    requires
        old(r).wf(),
    ensures
        read_as(*old(r), *final(r), sum_head_at(old(r).buf@, old(r).pos as int), res),
{
    let count: i32 = match read_int(r) {
        Err(e) => {
            return Err(e);
        },
        Ok(v) => v,
    };
    let blength: i32 = match read_int(r) {
        Err(e) => {
            return Err(e);
        },
        Ok(v) => v,
    };
    let s2length: i32 = match read_int(r) {
        Err(e) => {
            return Err(e);
        },
        Ok(v) => v,
    };
    match read_int(r) {
        Err(e) => Err(e),
        Ok(remainder) => Ok(SumHead { count, blength, s2length, remainder }),
    }
}

/// A head that was written is read back.
pub proof fn sum_head_read_back(s: Seq<u8>, p: int, h: SumHead)
    requires
        0 <= p,
        holds_at(s, p, sum_head_bytes(h)),
    ensures
        sum_head_at(s, p) == Ok::<(SumHead, int), ProtocolErrorView>(
            (h, p + sum_head_bytes(h).len()),
        ),
{
    let a = int_bytes(h.count);
    let b = int_bytes(h.blength);
    let c = int_bytes(h.s2length);
    let d = int_bytes(h.remainder);
    holds_split(s, p, a + b + c, d);
    holds_split(s, p, a + b, c);
    holds_split(s, p, a, b);
    int_read_back(s, p, h.count);
    int_read_back(s, p + a.len(), h.blength);
    int_read_back(s, p + a.len() + b.len(), h.s2length);
    int_read_back(s, p + a.len() + b.len() + c.len(), h.remainder);
}

/// The length of the blocks that a head tells of, or a fallback.
pub open spec fn block_length(h: SumHead, fallback: usize) -> usize {
    if h.blength > 0 {
        h.blength as usize
    } else {
        fallback
    }
}

/// The length of the blocks that a head tells of, or a fallback.
pub fn block_length_or(head: &SumHead, fallback: usize) -> (r: usize)
    ensures
        r == block_length(*head, fallback),
{
    if head.blength > 0 {
        head.blength as usize
    } else {
        fallback
    }
}

} // verus!
