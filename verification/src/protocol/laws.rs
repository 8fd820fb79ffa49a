//! What numbers look like on the wire, byte for byte.

use vstd::prelude::*;

use crate::protocol::handshake::{capabilities, NegotiatedProtocol};
use crate::protocol::sum::{block_length, sum_head_bytes, SumHead};
use crate::protocol::varint::{
    int_bytes, kept_bytes, ndx_bytes, ndx_next, varint30_bytes, varint_bytes, varlong30_bytes,
    varlong_bytes, NdxState,
};
use crate::protocol::wire::le_bytes;

verus! {

/// The lowest bytes of a number come first.
pub proof fn low_bytes_come_first(v: nat)
    ensures
        le_bytes(v, 2) == seq![(v % 256) as u8, (v / 256 % 256) as u8],
        le_bytes(v, 4) == seq![
            (v % 256) as u8,
            (v / 256 % 256) as u8,
            (v / 0x1_0000 % 256) as u8,
            (v / 0x100_0000 % 256) as u8,
        ],
{
    reveal_with_fuel(le_bytes, 5);
    let a = v / 256;
    let b = a / 256;
    let c = b / 256;
    assert(b == v / 0x1_0000);
    assert(c == v / 0x100_0000);
    assert(le_bytes(v, 2) =~= seq![(v % 256) as u8, (v / 256 % 256) as u8]);
    assert(le_bytes(v, 4) =~= seq![
        (v % 256) as u8,
        (v / 256 % 256) as u8,
        (v / 0x1_0000 % 256) as u8,
        (v / 0x100_0000 % 256) as u8,
    ]);
}

/// Eight bytes are the four low ones and the four high ones.
pub proof fn eight_bytes_are_two_halves(v: nat)
    ensures
        le_bytes(v, 8) == le_bytes(v % 0x1_0000_0000, 4) + le_bytes(v / 0x1_0000_0000, 4),
{
    let w = v % 0x1_0000_0000;
    let h = v / 0x1_0000_0000;
    split_once(w, h, 0x100_0000, 7);
    let w1 = w / 256;
    split_once(w1, h, 0x1_0000, 6);
    let w2 = w1 / 256;
    split_once(w2, h, 0x100, 5);
    let w3 = w2 / 256;
    split_once(w3, h, 1, 4);
    assert(w3 / 256 == 0);
    low_bytes_come_first(w);
    assert(w2 == w / 0x1_0000);
    assert(w3 == w / 0x100_0000);
    assert(le_bytes(v, 8) =~= le_bytes(w, 4) + le_bytes(h, 4));
}

/// The first of some bytes, where a multiple of a power stands above the rest.
proof fn split_once(w: nat, h: nat, k: nat, n: nat)
    ensures
        le_bytes(w + 256 * k * h, n + 1) == seq![(w % 256) as u8] + le_bytes(w / 256 + k * h, n),
{
    let m = k * h;
    assert(256 * k * h == 256 * m) by (nonlinear_arith)
        requires
            m == k * h,
    ;
    assert((w + 256 * m) % 256 == w % 256);
    assert((w + 256 * m) / 256 == w / 256 + m);
}

/// An integer takes four bytes, a negative one those of its complement.
pub proof fn integers_take_four_bytes(v: i32)
    ensures
        v >= 0 ==> int_bytes(v) == le_bytes(v as nat, 4),
        v < 0 ==> int_bytes(v) == le_bytes((v + 0x1_0000_0000) as nat, 4),
        int_bytes(v).len() == 4,
{
    crate::protocol::wire::le_bytes_len(v as nat, 4);
    crate::protocol::wire::le_bytes_len((v + 0x1_0000_0000) as nat, 4);
}

proof fn kept_of_four(b: Seq<u8>)
    requires
        b.len() == 4,
    ensures
        kept_bytes(b, 4, 1) == (if b[3] != 0 {
            4nat
        } else if b[2] != 0 {
            3
        } else if b[1] != 0 {
            2
        } else {
            1
        }),
{
    reveal_with_fuel(kept_bytes, 5);
}

/// A small number is one byte. A larger one is led by a byte whose upper bits
/// count the bytes that follow; its lower bits are the top of the number, as far
/// as they have room for it.
pub proof fn small_numbers_are_short(v: u32)
    ensures
        v < 0x80 ==> varint_bytes(v) == seq![v as u8],
        0x80 <= v < 0x4000 ==> varint_bytes(v) == seq![(0x80 + v / 0x100) as u8, (v % 0x100) as u8],
        0x4000 <= v < 0x20_0000 ==> varint_bytes(v) == seq![
            (0xC0 + v / 0x1_0000) as u8,
            (v % 0x100) as u8,
            (v / 0x100 % 0x100) as u8,
        ],
        0x20_0000 <= v < 0x1000_0000 ==> varint_bytes(v) == seq![
            (0xE0 + v / 0x100_0000) as u8,
            (v % 0x100) as u8,
            (v / 0x100 % 0x100) as u8,
            (v / 0x1_0000 % 0x100) as u8,
        ],
        0x1000_0000 <= v ==> varint_bytes(v) == seq![0xF0u8] + le_bytes(v as nat, 4),
{
    let b = le_bytes(v as nat, 4);
    low_bytes_come_first(v as nat);
    kept_of_four(b);
    assert(b[0] == v % 0x100);
    assert(b[1] == v / 0x100 % 0x100);
    assert(b[2] == v / 0x1_0000 % 0x100);
    assert(b[3] == v / 0x100_0000 % 0x100);
    if v < 0x80 {
        assert(varint_bytes(v) =~= seq![v as u8]);
    } else if v < 0x4000 {
        assert(varint_bytes(v) =~= seq![(0x80 + v / 0x100) as u8, (v % 0x100) as u8]);
    } else if v < 0x20_0000 {
        assert(varint_bytes(v) =~= seq![
            (0xC0 + v / 0x1_0000) as u8,
            (v % 0x100) as u8,
            (v / 0x100 % 0x100) as u8,
        ]);
    } else if v < 0x1000_0000 {
        assert(varint_bytes(v) =~= seq![
            (0xE0 + v / 0x100_0000) as u8,
            (v % 0x100) as u8,
            (v / 0x100 % 0x100) as u8,
            (v / 0x1_0000 % 0x100) as u8,
        ]);
    } else {
        assert(b.take(4) =~= b);
    }
}

/// A small long number of at least three bytes is its top byte and the two below
/// it.
pub proof fn small_long_numbers_take_three_bytes(v: i64)
    requires
        0 <= v < 0x80_0000,
    ensures
        varlong_bytes(v, 3) == seq![
            (v / 0x1_0000) as u8,
            (v % 0x100) as u8,
            (v / 0x100 % 0x100) as u8,
        ],
{
    let b = le_bytes(v as nat, 8);
    eight_bytes_are_two_halves(v as nat);
    low_bytes_come_first(v as nat);
    low_bytes_come_first(0);
    assert((v as nat) % 0x1_0000_0000 == v);
    assert((v as nat) / 0x1_0000_0000 == 0);
    assert(b[3] == 0 && b[4] == 0 && b[5] == 0 && b[6] == 0 && b[7] == 0);
    assert(b[2] == v / 0x1_0000);
    reveal_with_fuel(kept_bytes, 6);
    assert(kept_bytes(b, 8, 3) == 3);
    assert(varlong_bytes(v, 3) =~= seq![
        (v / 0x1_0000) as u8,
        (v % 0x100) as u8,
        (v / 0x100 % 0x100) as u8,
    ]);
}

/// Before protocol 30 numbers have a fixed width; long ones that do not fit in 31
/// bits follow a marker.
pub proof fn old_numbers_have_fixed_width(v: u32, w: i64, version: u8, min: nat)
    ensures
        version < 30 ==> varint30_bytes(v, version) == le_bytes(v as nat, 4),
        version >= 30 ==> varint30_bytes(v, version) == varint_bytes(v),
        version >= 30 ==> varlong30_bytes(w, min, version) == varlong_bytes(w, min),
        version < 30 && 0 <= w <= 0x7FFF_FFFF ==> varlong30_bytes(w, min, version) == le_bytes(
            w as nat,
            4,
        ),
        version < 30 && w > 0x7FFF_FFFF ==> varlong30_bytes(w, min, version) == seq![
            0xFFu8,
            0xFF,
            0xFF,
            0xFF,
        ] + le_bytes(w as nat, 8),
{
    low_bytes_come_first(0xFFFF_FFFF);
    assert(int_bytes((-1) as i32) =~= seq![0xFFu8, 0xFF, 0xFF, 0xFF]);
}

/// The end marker is one zero byte from protocol 30 on, before that the integer
/// -1. An index that follows another closely is the distance in one byte.
pub proof fn close_indices_are_one_byte(ndx: i32, st: NdxState, version: u8)
    ensures
        version >= 30 ==> ndx_bytes((-1) as i32, st, version) == seq![0u8],
        version < 30 ==> ndx_bytes(ndx, st, version) == int_bytes(ndx),
        version >= 30 && ndx >= 0 && 0 < ndx - st.prev_positive < 0xFE ==> ndx_bytes(
            ndx,
            st,
            version,
        ) == seq![(ndx - st.prev_positive) as u8],
        version >= 30 && ndx >= 0 && (ndx == st.prev_positive || 0xFE <= ndx - st.prev_positive
            <= 0x7FFF) ==> ndx_bytes(ndx, st, version) == seq![
            0xFEu8,
            ((ndx - st.prev_positive) / 0x100) as u8,
            ((ndx - st.prev_positive) % 0x100) as u8,
        ],
        version >= 30 && ndx < -1 && 0 < -ndx - st.prev_negative < 0xFE ==> ndx_bytes(
            ndx,
            st,
            version,
        ) == seq![0xFFu8, (-ndx - st.prev_negative) as u8],
{
    assert(version >= 30 && ndx < -1 && 0 < -ndx - st.prev_negative < 0xFE ==> ndx_bytes(
        ndx,
        st,
        version,
    ) =~= seq![0xFFu8, (-ndx - st.prev_negative) as u8]);
}

/// Both kinds of index are remembered apart, from protocol 30 on; the first index
/// follows -1, the first negative one -1 as well.
pub proof fn indices_are_remembered_apart(ndx: i32, st: NdxState, version: u8)
    requires
        version >= 30,
        ndx > i32::MIN,
    ensures
        NdxState::initial().prev_positive == -1 && NdxState::initial().prev_negative == 1,
        ndx >= 0 ==> ndx_next(ndx, st, version) == (NdxState { prev_positive: ndx, ..st }),
        ndx == -1 ==> ndx_next(ndx, st, version) == st,
        ndx < -1 ==> ndx_next(ndx, st, version) == (NdxState { prev_negative: (-ndx) as i32, ..st }),
{
}

/// The head of signatures is four integers: how many blocks, how long, how long
/// their checksums are, and how long the last block is.
pub proof fn head_is_four_integers(h: SumHead)
    ensures
        sum_head_bytes(h).len() == 16,
        sum_head_bytes(h).subrange(0, 4) == int_bytes(h.count),
        sum_head_bytes(h).subrange(4, 8) == int_bytes(h.blength),
        sum_head_bytes(h).subrange(8, 12) == int_bytes(h.s2length),
        sum_head_bytes(h).subrange(12, 16) == int_bytes(h.remainder),
{
    integers_take_four_bytes(h.count);
    integers_take_four_bytes(h.blength);
    integers_take_four_bytes(h.s2length);
    integers_take_four_bytes(h.remainder);
    let b = sum_head_bytes(h);
    assert(b.subrange(0, 4) =~= int_bytes(h.count));
    assert(b.subrange(4, 8) =~= int_bytes(h.blength));
    assert(b.subrange(8, 12) =~= int_bytes(h.s2length));
    assert(b.subrange(12, 16) =~= int_bytes(h.remainder));
}

/// Blocks are as long as the head says, where it says so.
pub proof fn block_length_is_that_of_the_head(h: SumHead, fallback: usize)
    ensures
        h.blength > 0 ==> block_length(h, fallback) == h.blength,
        h.blength <= 0 ==> block_length(h, fallback) == fallback,
{
}

/// What a session has agreed on: from protocol 30 on the flags say whether lists
/// come by directory and whether their flags are variable integers.
pub proof fn agreed_flags_decide(p: NegotiatedProtocol)
    ensures
        p.incremental() <==> p.version >= 30 && p.compat_flags % 2 == 1,
        p.varint_flags() <==> p.version >= 30 && p.compat_flags / 0x80 % 2 == 1,
        p.id0_names() <==> p.compat_flags / 0x100 % 2 == 1,
{
    let f = p.compat_flags;
    assert((f & 0x1 != 0) == (f % 2 == 1) && (f & 0x80 != 0) == (f / 0x80 % 2 == 1) && (f & 0x100
        != 0) == (f / 0x100 % 2 == 1)) by (bit_vector);
}

/// What a client can do is told by letters behind a dot.
pub proof fn capabilities_are_told(inc_recurse: bool, symlink_times: bool, iconv: bool)
    ensures
        ({
            let c = capabilities(inc_recurse, symlink_times, iconv);
            &&& c[0] == '.'
            &&& c.contains('i') <==> inc_recurse
            &&& c.contains('L') <==> symlink_times
            &&& c.contains('s') <==> iconv
            &&& c.contains('f') && c.contains('x') && c.contains('C') && c.contains('I')
            &&& c.contains('v') && c.contains('u')
        }),
{
    let c = capabilities(inc_recurse, symlink_times, iconv);
    let n = c.len();
    assert(c[n - 6] == 'f' && c[n - 5] == 'x' && c[n - 4] == 'C' && c[n - 3] == 'I' && c[n - 2]
        == 'v' && c[n - 1] == 'u');
    if inc_recurse {
        assert(c[1] == 'i');
    }
    if symlink_times {
        assert(c[if inc_recurse {
            2
        } else {
            1
        }] == 'L');
    }
    if iconv {
        assert(c[n - 7] == 's');
    }
}

} // verus!
