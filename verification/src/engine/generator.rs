//! Generator role: tells the sender which blocks the receiver has.

use vstd::prelude::*;

use crate::protocol::sum::{sum_head_bytes, write_sum_head, SumHead};
use crate::protocol::varint::{int_bytes, write_int};
use crate::protocol::wire::write_bytes;

verus! {

/// The bytes of the signatures of a file: its index, the head, and the
/// signatures of the blocks.
pub open spec fn signatures_bytes(file_index: i32, head: SumHead, blocks: Seq<u8>) -> Seq<u8> {
    int_bytes(file_index) + sum_head_bytes(head) + blocks
}

/// Writes the signatures of a file. `blocks` are the encoded signatures of its
/// blocks.
pub fn send_file_signatures(w: &mut Vec<u8>, file_index: i32, head: &SumHead, blocks: &[u8])
    ensures
        final(w)@ == old(w)@ + signatures_bytes(file_index, *head, blocks@),
{
    write_int(w, file_index);
    write_sum_head(w, head);
    write_bytes(w, blocks);
    assert(w@ =~= old(w)@ + signatures_bytes(file_index, *head, blocks@));
}

/// Says that no more files follow.
pub fn send_generator_done(w: &mut Vec<u8>)
    ensures
        final(w)@ == old(w)@ + int_bytes((-1) as i32),
{
    write_int(w, -1);
}

} // verus!
