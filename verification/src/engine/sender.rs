//! Sender role: sends the delta of a file.

use vstd::prelude::*;

use crate::protocol::varint::{int_bytes, write_int};
use crate::protocol::wire::write_bytes;

verus! {

/// The bytes of the delta of a file: its index, the tokens, and the checksum of
/// the whole.
pub open spec fn delta_bytes(file_index: i32, tokens: Seq<u8>, file_sum: Seq<u8>) -> Seq<u8> {
    int_bytes(file_index) + tokens + file_sum
}

/// Writes the delta of a file. `tokens` are the encoded tokens up to the end of
/// the file, `file_sum` is the checksum of its data.
pub fn send_file_delta(w: &mut Vec<u8>, file_index: i32, tokens: &[u8], file_sum: &[u8])
    ensures
        final(w)@ == old(w)@ + delta_bytes(file_index, tokens@, file_sum@),
{
    write_int(w, file_index);
    write_bytes(w, tokens);
    write_bytes(w, file_sum);
    assert(w@ =~= old(w)@ + delta_bytes(file_index, tokens@, file_sum@));
}

/// Says that no more files follow.
pub fn send_sender_done(w: &mut Vec<u8>)
    ensures
        final(w)@ == old(w)@ + int_bytes((-1) as i32),
{
    write_int(w, -1);
}

} // verus!
