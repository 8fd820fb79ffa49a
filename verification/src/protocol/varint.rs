//! Integers of the wire protocol.
//!
//! Besides fixed-width little-endian integers the protocol has a compact form
//! whose first byte says how many more follow and carries the top bits of the
//! number. File indices have a form of their own, relative to the index sent
//! before.

use vstd::prelude::*;

use crate::error::{eof_error, make_eof, ProtocolError, ProtocolErrorView};
use crate::protocol::wire::{
    byte_range, byte_range_values, bytes_at, get_le, holds_at, holds_index, holds_split, le_bytes,
    le_bytes_len, le_read_back, le_value, le_value_bound, le_value_top_zeros, push_le, read_as,
    WireReader,
};

verus! {

/// End of a transfer phase.
pub const NDX_DONE: i32 = -1;

/// The protocol version from which compact integers are in use.
pub const COMPACT_VERSION: u8 = 30;

// ---------------------------------------------------------------------------
// Fixed-width integers
// ---------------------------------------------------------------------------

/// The unsigned number with the same 32 bits.
pub open spec fn u32_of(v: i32) -> nat {
    if v < 0 {
        (v + 0x1_0000_0000) as nat
    } else {
        v as nat
    }
}

/// The signed number with the same 32 bits.
pub open spec fn i32_of(v: nat) -> i32 {
    if v >= 0x8000_0000 {
        (v - 0x1_0000_0000) as i32
    } else {
        v as i32
    }
}

/// The unsigned number with the same 64 bits.
pub open spec fn u64_of(v: i64) -> nat {
    if v < 0 {
        (v + 0x1_0000_0000_0000_0000) as nat
    } else {
        v as nat
    }
}

/// The signed number with the same 64 bits.
pub open spec fn i64_of(v: nat) -> i64 {
    if v >= 0x8000_0000_0000_0000 {
        (v - 0x1_0000_0000_0000_0000) as i64
    } else {
        v as i64
    }
}

/// Reinterprets 32 bits as unsigned.
pub fn as_u32(v: i32) -> (r: u32)
    ensures
        r == u32_of(v),
{
    if v < 0 {
        (v as i64 + 0x1_0000_0000) as u32
    } else {
        v as u32
    }
}

/// Reinterprets 32 bits as signed.
pub fn as_i32(v: u32) -> (r: i32)
    ensures
        r == i32_of(v as nat),
{
    if v >= 0x8000_0000 {
        (v as i64 - 0x1_0000_0000) as i32
    } else {
        v as i32
    }
}

/// Reinterprets 64 bits as unsigned.
pub fn as_u64(v: i64) -> (r: u64)
    ensures
        r == u64_of(v),
{
    if v < 0 {
        (v as i128 + 0x1_0000_0000_0000_0000) as u64
    } else {
        v as u64
    }
}

/// Reinterprets 64 bits as signed.
pub fn as_i64(v: u64) -> (r: i64)
    ensures
        r == i64_of(v as nat),
{
    if v >= 0x8000_0000_0000_0000 {
        (v as i128 - 0x1_0000_0000_0000_0000) as i64
    } else {
        v as i64
    }
}

/// The four bytes of an integer.
pub open spec fn int_bytes(v: i32) -> Seq<u8> {
    le_bytes(u32_of(v), 4)
}

/// The integer at a position.
pub open spec fn int_at(s: Seq<u8>, p: int) -> Result<(i32, int), ProtocolErrorView> {
    match bytes_at(s, p, 4) {
        Ok((b, q)) => Ok((i32_of(le_value(b)), q)),
        Err(e) => Err(e),
    }
}

/// Writes a four-byte integer.
pub fn write_int(w: &mut Vec<u8>, v: i32)
    ensures
        final(w)@ == old(w)@ + int_bytes(v),
{
    push_le(w, as_u32(v) as u64, 4);
}

/// Reads a four-byte integer.
pub fn read_int(r: &mut WireReader) -> (res: Result<i32, ProtocolError>)
    requires
        old(r).wf(),
    ensures
        read_as(*old(r), *final(r), int_at(old(r).buf@, old(r).pos as int), res),
{
    if r.buf.len() - r.pos >= 4 {
        let v = get_le(r.buf, r.pos, 4);
        proof {
            le_value_bound(r.buf@.subrange(r.pos as int, r.pos + 4));
            byte_range_values();
        }
        r.pos = r.pos + 4;
        Ok(as_i32(v as u32))
    } else {
        Err(make_eof())
    }
}

/// Reading a written integer gives it back.
pub proof fn int_read_back(s: Seq<u8>, p: int, v: i32)
    requires
        holds_at(s, p, int_bytes(v)),
    ensures
        int_at(s, p) == Ok::<(i32, int), ProtocolErrorView>((v, p + 4)),
        int_bytes(v).len() == 4,
{
    byte_range_values();
    le_bytes_len(u32_of(v), 4);
    le_read_back(u32_of(v), 4);
}

/// Writes a two-byte unsigned integer.
pub fn write_shortint(w: &mut Vec<u8>, v: u16)
    ensures
        final(w)@ == old(w)@ + le_bytes(v as nat, 2),
{
    push_le(w, v as u64, 2);
}

// ---------------------------------------------------------------------------
// Compact integers
// ---------------------------------------------------------------------------

/// The number of bytes, at least `min`, that remain when zero bytes are taken
/// off the top.
pub open spec fn kept_bytes(b: Seq<u8>, cnt: nat, min: nat) -> nat
    decreases cnt,
{
    if cnt > min && b[cnt - 1] == 0 {
        kept_bytes(b, (cnt - 1) as nat, min)
    } else {
        cnt
    }
}

/// How large the top byte may be, exclusively, to fit in the first byte when
/// `k` bytes beyond the minimum are kept.
pub open spec fn top_limit(k: nat) -> nat {
    if k == 0 {
        128
    } else if k == 1 {
        64
    } else if k == 2 {
        32
    } else if k == 3 {
        16
    } else if k == 4 {
        8
    } else {
        4
    }
}

/// The compact form of a number given by its bytes, lowest first, in which at
/// least `min` bytes are sent.
pub open spec fn compact_bytes(b: Seq<u8>, min: nat) -> Seq<u8> {
    let cnt = kept_bytes(b, b.len(), min);
    let limit = top_limit((cnt - min) as nat);
    let top = b[cnt - 1];
    if top >= limit {
        seq![(256 - limit) as u8] + b.take(cnt as int)
    } else if cnt > min {
        seq![(256 - 2 * limit + top) as u8] + b.take(cnt - 1)
    } else {
        seq![top] + b.take(cnt - 1)
    }
}

/// How many bytes beyond the minimum a first byte announces.
pub open spec fn announced_extra(first: u8) -> nat {
    if first < 0x80 {
        0
    } else if first < 0xC0 {
        1
    } else if first < 0xE0 {
        2
    } else if first < 0xF0 {
        3
    } else if first < 0xF8 {
        4
    } else if first < 0xFC {
        5
    } else {
        6
    }
}

/// How many values the number's bits in the first byte can take.
pub open spec fn carried_range(extra: nat) -> nat {
    if extra == 0 {
        256
    } else if extra == 1 {
        128
    } else if extra == 2 {
        64
    } else if extra == 3 {
        32
    } else if extra == 4 {
        16
    } else if extra == 5 {
        8
    } else {
        4
    }
}

/// The compact number at a position, of at most `width` bytes and with at
/// least `min` bytes sent.
pub open spec fn compact_at(s: Seq<u8>, p: int, width: nat, min: nat) -> Result<
    (nat, int),
    ProtocolErrorView,
> {
    if p + min > s.len() {
        Err(eof_error())
    } else {
        let extra = announced_extra(s[p]);
        if min + extra > width + 1 {
            Err(ProtocolErrorView::InvalidVarint)
        } else if p + min + extra > s.len() {
            Err(eof_error())
        } else {
            let low = s.subrange(p + 1, p + min + extra);
            let top = (s[p] as nat % carried_range(extra)) as u8;
            let value = if min + extra <= width {
                le_value(low.push(top))
            } else {
                le_value(low)
            };
            Ok((value, p + min + extra))
        }
    }
}

/// What is known of the bytes that are kept.
proof fn kept_bytes_facts(b: Seq<u8>, cnt: nat, min: nat)
    requires
        min <= cnt <= b.len(),
    ensures
        min <= kept_bytes(b, cnt, min) <= cnt,
        forall|i: int| kept_bytes(b, cnt, min) <= i < cnt ==> b[i] == 0,
    decreases cnt,
{
    if cnt > min && b[cnt - 1] == 0 {
        kept_bytes_facts(b, (cnt - 1) as nat, min);
    }
}

/// Reading a compact number gives it back.
pub proof fn compact_read_back(s: Seq<u8>, p: int, v: nat, width: nat, min: nat)
    requires
        1 <= min <= width <= 8,
        width - min <= 5,
        v < byte_range(width),
        holds_at(s, p, compact_bytes(le_bytes(v, width), min)),
    ensures
        compact_at(s, p, width, min) == Ok::<(nat, int), ProtocolErrorView>(
            (v, p + compact_bytes(le_bytes(v, width), min).len()),
        ),
{
    let b = le_bytes(v, width);
    le_bytes_len(v, width);
    le_read_back(v, width);
    kept_bytes_facts(b, b.len(), min);
    let cnt = kept_bytes(b, b.len(), min);
    le_value_top_zeros(b, cnt as int);
    let k = (cnt - min) as nat;
    let limit = top_limit(k);
    let top = b[cnt - 1];
    let w = compact_bytes(b, min);
    holds_index(s, p, w, 0);
    let first = s[p];
    let extra = announced_extra(first);
    assert(s.subrange(p, p + w.len()) =~= w);
    if top >= limit {
        assert(first == 256 - limit);
        assert(extra == k + 1);
        let low = s.subrange(p + 1, p + min + extra);
        assert(low =~= b.take(cnt as int)) by {
            assert(low =~= w.subrange(1, w.len() as int));
            assert(w.subrange(1, w.len() as int) =~= b.take(cnt as int));
        }
        assert(first as nat % carried_range(extra) == 0);
        if min + extra <= width {
            let full = low.push(0u8);
            le_value_top_zeros(full, cnt as int);
            assert(full.take(cnt as int) =~= low);
        }
    } else if cnt > min {
        assert(first == 256 - 2 * limit + top);
        assert(extra == k);
        let low = s.subrange(p + 1, p + min + extra);
        assert(low =~= b.take(cnt - 1)) by {
            assert(low =~= w.subrange(1, w.len() as int));
            assert(w.subrange(1, w.len() as int) =~= b.take(cnt - 1));
        }
        assert(first as nat % carried_range(extra) == top);
        assert(low.push(top) =~= b.take(cnt as int));
    } else {
        assert(first == top);
        assert(extra == 0);
        let low = s.subrange(p + 1, p + min + extra);
        assert(low =~= b.take(cnt - 1)) by {
            assert(low =~= w.subrange(1, w.len() as int));
            assert(w.subrange(1, w.len() as int) =~= b.take(cnt - 1));
        }
        assert(low.push(top) =~= b.take(cnt as int));
    }
}

/// A compact number that was read fits in its width.
proof fn compact_value_bound(s: Seq<u8>, p: int, width: nat, min: nat)
    requires
        0 <= p,
        1 <= min <= width,
    ensures
        compact_at(s, p, width, min) is Ok ==> compact_at(s, p, width, min)->Ok_0.0 < byte_range(
            width,
        ),
{
    if compact_at(s, p, width, min) is Ok {
        let extra = announced_extra(s[p]);
        let low = s.subrange(p + 1, p + min + extra);
        let top = (s[p] as nat % carried_range(extra)) as u8;
        if min + extra <= width {
            le_value_bound(low.push(top));
            byte_range_grows((min + extra) as nat, width);
        } else {
            le_value_bound(low);
        }
    }
}

proof fn byte_range_grows(a: nat, b: nat)
    requires
        a <= b,
    ensures
        byte_range(a) <= byte_range(b),
    decreases b,
{
    if a < b {
        byte_range_grows(a, (b - 1) as nat);
    }
}

/// Writes a compact number of `width` bytes with at least `min` bytes sent.
fn write_compact(w: &mut Vec<u8>, v: u64, width: usize, min: usize)
    requires
        1 <= min <= width <= 8,
        width - min <= 5,
    ensures
        final(w)@ == old(w)@ + compact_bytes(le_bytes(v as nat, width as nat), min as nat),
{
    let mut b: Vec<u8> = Vec::new();
    push_le(&mut b, v, width);
    proof {
        le_bytes_len(v as nat, width as nat);
        assert(b@ =~= le_bytes(v as nat, width as nat));
    }
    let mut cnt: usize = width;
    while cnt > min && b[cnt - 1] == 0
        invariant
            1 <= min <= cnt <= width,
            b@.len() == width,
            kept_bytes(b@, cnt as nat, min as nat) == kept_bytes(b@, width as nat, min as nat),
        decreases cnt,
    {
        cnt = cnt - 1;
    }
    let k: usize = cnt - min;
    let limit: u16 = if k == 0 {
        128
    } else if k == 1 {
        64
    } else if k == 2 {
        32
    } else if k == 3 {
        16
    } else if k == 4 {
        8
    } else {
        4
    };
    let top: u8 = b[cnt - 1];
    let sent: usize = if top as u16 >= limit {
        w.push((256 - limit) as u8);
        cnt
    } else if cnt > min {
        w.push((256 - 2 * limit + top as u16) as u8);
        cnt - 1
    } else {
        w.push(top);
        cnt - 1
    };
    let part = vstd::slice::slice_subrange(b.as_slice(), 0, sent);
    w.extend_from_slice(part);
    assert(part@ =~= b@.take(sent as int));
    assert(w@ =~= old(w)@ + compact_bytes(b@, min as nat));
}

/// Reads a compact number of at most `width` bytes.
fn read_compact(r: &mut WireReader, width: usize, min: usize) -> (res: Result<u64, ProtocolError>)
    requires
        old(r).wf(),
        1 <= min <= width <= 8,
    ensures
        final(r).wf(),
        final(r).buf@ == old(r).buf@,
        match compact_at(old(r).buf@, old(r).pos as int, width as nat, min as nat) {
            Ok((v, p)) => res == Ok::<u64, ProtocolError>(v as u64) && final(r).pos == p && v
                < byte_range(width as nat),
            Err(f) => res is Err && res->Err_0@ == f,
        },
{
    proof {
        compact_value_bound(r.buf@, r.pos as int, width as nat, min as nat);
        byte_range_grows(width as nat, 8);
        byte_range_values();
    }
    if r.buf.len() - r.pos < min {
        return Err(make_eof());
    }
    let first: u8 = r.buf[r.pos];
    let extra: usize = if first < 0x80 {
        0
    } else if first < 0xC0 {
        1
    } else if first < 0xE0 {
        2
    } else if first < 0xF0 {
        3
    } else if first < 0xF8 {
        4
    } else if first < 0xFC {
        5
    } else {
        6
    };
    if min + extra > width + 1 {
        return Err(ProtocolError::InvalidVarint);
    }
    if r.buf.len() - r.pos - min < extra {
        return Err(make_eof());
    }
    let range: u16 = if extra == 0 {
        256
    } else if extra == 1 {
        128
    } else if extra == 2 {
        64
    } else if extra == 3 {
        32
    } else if extra == 4 {
        16
    } else if extra == 5 {
        8
    } else {
        4
    };
    let top: u8 = (first as u16 % range) as u8;
    let low_part = vstd::slice::slice_subrange(r.buf, r.pos + 1, r.pos + min + extra);
    let mut bytes = vstd::slice::slice_to_vec(low_part);
    let ghost low = r.buf@.subrange(r.pos + 1, r.pos + min + extra);
    assert(bytes@ =~= low);
    if min + extra <= width {
        bytes.push(top);
    }
    let n: usize = bytes.len();
    let v = get_le(bytes.as_slice(), 0, n);
    assert(bytes@.subrange(0, n as int) =~= bytes@);
    r.pos = r.pos + min + extra;
    Ok(v)
}

/// The compact form of a 32-bit number.
pub open spec fn varint_bytes(v: u32) -> Seq<u8> {
    compact_bytes(le_bytes(v as nat, 4), 1)
}

/// The compact 32-bit number at a position.
pub open spec fn varint_at(s: Seq<u8>, p: int) -> Result<(u32, int), ProtocolErrorView> {
    match compact_at(s, p, 4, 1) {
        Ok((v, q)) => Ok((v as u32, q)),
        Err(e) => Err(e),
    }
}

/// Writes a compact 32-bit number.
pub fn write_varint(w: &mut Vec<u8>, v: u32)
    ensures
        final(w)@ == old(w)@ + varint_bytes(v),
{
    write_compact(w, v as u64, 4, 1);
}

/// Reads a compact 32-bit number.
pub fn read_varint(r: &mut WireReader) -> (res: Result<u32, ProtocolError>)
    requires
        old(r).wf(),
    ensures
        read_as(*old(r), *final(r), varint_at(old(r).buf@, old(r).pos as int), res),
{
    proof {
        byte_range_values();
    }
    match read_compact(r, 4, 1) {
        Ok(v) => Ok(v as u32),
        Err(e) => Err(e),
    }
}

/// Reading a written compact number gives it back.
pub proof fn varint_read_back(s: Seq<u8>, p: int, v: u32)
    requires
        holds_at(s, p, varint_bytes(v)),
    ensures
        varint_at(s, p) == Ok::<(u32, int), ProtocolErrorView>((v, p + varint_bytes(v).len())),
{
    byte_range_values();
    compact_read_back(s, p, v as nat, 4, 1);
}

/// The compact form of a 64-bit number with at least `min` bytes sent.
pub open spec fn varlong_bytes(v: i64, min: nat) -> Seq<u8> {
    compact_bytes(le_bytes(u64_of(v), 8), min)
}

/// The compact 64-bit number at a position.
pub open spec fn varlong_at(s: Seq<u8>, p: int, min: nat) -> Result<(i64, int), ProtocolErrorView> {
    match compact_at(s, p, 8, min) {
        Ok((v, q)) => Ok((i64_of(v), q)),
        Err(e) => Err(e),
    }
}

/// Writes a compact 64-bit number.
pub fn write_varlong(w: &mut Vec<u8>, v: i64, min: usize)
    requires
        3 <= min <= 8,
    ensures
        final(w)@ == old(w)@ + varlong_bytes(v, min as nat),
{
    write_compact(w, as_u64(v), 8, min);
}

/// Reads a compact 64-bit number.
pub fn read_varlong(r: &mut WireReader, min: usize) -> (res: Result<i64, ProtocolError>)
    requires
        old(r).wf(),
        1 <= min <= 8,
    ensures
        read_as(*old(r), *final(r), varlong_at(old(r).buf@, old(r).pos as int, min as nat), res),
{
    proof {
        byte_range_values();
    }
    match read_compact(r, 8, min) {
        Ok(v) => Ok(as_i64(v)),
        Err(e) => Err(e),
    }
}

/// Reading a written compact 64-bit number gives it back.
pub proof fn varlong_read_back(s: Seq<u8>, p: int, v: i64, min: nat)
    requires
        3 <= min <= 8,
        holds_at(s, p, varlong_bytes(v, min)),
    ensures
        varlong_at(s, p, min) == Ok::<(i64, int), ProtocolErrorView>(
            (v, p + varlong_bytes(v, min).len()),
        ),
{
    byte_range_values();
    compact_read_back(s, p, u64_of(v), 8, min);
}

// ---------------------------------------------------------------------------
// Version-dependent integers
// ---------------------------------------------------------------------------

/// A 32-bit number as the protocol version writes it.
pub open spec fn varint30_bytes(v: u32, version: u8) -> Seq<u8> {
    if version >= COMPACT_VERSION {
        varint_bytes(v)
    } else {
        le_bytes(v as nat, 4)
    }
}

/// A 32-bit number as the protocol version reads it.
pub open spec fn varint30_at(s: Seq<u8>, p: int, version: u8) -> Result<
    (u32, int),
    ProtocolErrorView,
> {
    if version >= COMPACT_VERSION {
        varint_at(s, p)
    } else {
        match bytes_at(s, p, 4) {
            Ok((b, q)) => Ok((le_value(b) as u32, q)),
            Err(e) => Err(e),
        }
    }
}

/// Writes a 32-bit number in the form of the protocol version.
pub fn write_varint30(w: &mut Vec<u8>, v: u32, version: u8)
    ensures
        final(w)@ == old(w)@ + varint30_bytes(v, version),
{
    if version >= COMPACT_VERSION {
        write_varint(w, v);
    } else {
        push_le(w, v as u64, 4);
    }
}

/// Reads a 32-bit number in the form of the protocol version.
pub fn read_varint30(r: &mut WireReader, version: u8) -> (res: Result<u32, ProtocolError>)
    requires
        old(r).wf(),
    ensures
        read_as(*old(r), *final(r), varint30_at(old(r).buf@, old(r).pos as int, version), res),
{
    if version >= COMPACT_VERSION {
        read_varint(r)
    } else if r.buf.len() - r.pos >= 4 {
        let v = get_le(r.buf, r.pos, 4);
        proof {
            le_value_bound(r.buf@.subrange(r.pos as int, r.pos + 4));
            byte_range_values();
        }
        r.pos = r.pos + 4;
        Ok(v as u32)
    } else {
        Err(make_eof())
    }
}

/// Reading a 32-bit number written for the same version gives it back.
pub proof fn varint30_read_back(s: Seq<u8>, p: int, v: u32, version: u8)
    requires
        holds_at(s, p, varint30_bytes(v, version)),
    ensures
        varint30_at(s, p, version) == Ok::<(u32, int), ProtocolErrorView>(
            (v, p + varint30_bytes(v, version).len()),
        ),
{
    byte_range_values();
    if version >= COMPACT_VERSION {
        varint_read_back(s, p, v);
    } else {
        le_bytes_len(v as nat, 4);
        le_read_back(v as nat, 4);
    }
}

/// A 64-bit number before compact integers: four bytes where it fits, else a
/// marker and eight bytes.
pub open spec fn longint_bytes(v: i64) -> Seq<u8> {
    if 0 <= v <= 0x7FFF_FFFF {
        le_bytes(v as nat, 4)
    } else {
        int_bytes((-1) as i32) + le_bytes(u64_of(v), 8)
    }
}

/// A 64-bit number before compact integers.
pub open spec fn longint_at(s: Seq<u8>, p: int) -> Result<(i64, int), ProtocolErrorView> {
    match int_at(s, p) {
        Ok((n, q)) => if n == -1 {
            match bytes_at(s, q, 8) {
                Ok((b, q2)) => Ok((i64_of(le_value(b)), q2)),
                Err(e) => Err(e),
            }
        } else {
            Ok((n as i64, q))
        },
        Err(e) => Err(e),
    }
}

/// A 64-bit number as the protocol version writes it.
pub open spec fn varlong30_bytes(v: i64, min: nat, version: u8) -> Seq<u8> {
    if version >= COMPACT_VERSION {
        varlong_bytes(v, min)
    } else {
        longint_bytes(v)
    }
}

/// A 64-bit number as the protocol version reads it.
pub open spec fn varlong30_at(s: Seq<u8>, p: int, min: nat, version: u8) -> Result<
    (i64, int),
    ProtocolErrorView,
> {
    if version >= COMPACT_VERSION {
        varlong_at(s, p, min)
    } else {
        longint_at(s, p)
    }
}

/// Writes a 64-bit number in the form of the protocol version.
pub fn write_varlong30(w: &mut Vec<u8>, v: i64, min: usize, version: u8)
    requires
        3 <= min <= 8,
    ensures
        final(w)@ == old(w)@ + varlong30_bytes(v, min as nat, version),
{
    if version >= COMPACT_VERSION {
        write_varlong(w, v, min);
    } else if 0 <= v && v <= 0x7FFF_FFFF {
        push_le(w, v as u64, 4);
    } else {
        write_int(w, -1);
        push_le(w, as_u64(v), 8);
        assert(w@ =~= old(w)@ + longint_bytes(v));
    }
}

/// Reads a 64-bit number in the form of the protocol version.
pub fn read_varlong30(r: &mut WireReader, min: usize, version: u8) -> (res: Result<
    i64,
    ProtocolError,
>)
    requires
        old(r).wf(),
        1 <= min <= 8,
    ensures
        read_as(
            *old(r),
            *final(r),
            varlong30_at(old(r).buf@, old(r).pos as int, min as nat, version),
            res,
        ),
{
    if version >= COMPACT_VERSION {
        return read_varlong(r, min);
    }
    match read_int(r) {
        Ok(n) => {
            if n == -1 {
                if r.buf.len() - r.pos >= 8 {
                    let v = get_le(r.buf, r.pos, 8);
                    r.pos = r.pos + 8;
                    Ok(as_i64(v))
                } else {
                    Err(make_eof())
                }
            } else {
                Ok(n as i64)
            }
        },
        Err(e) => Err(e),
    }
}

/// Reading a 64-bit number written for the same version gives it back.
pub proof fn varlong30_read_back(s: Seq<u8>, p: int, v: i64, min: nat, version: u8)
    requires
        3 <= min <= 8,
        holds_at(s, p, varlong30_bytes(v, min, version)),
    ensures
        varlong30_at(s, p, min, version) == Ok::<(i64, int), ProtocolErrorView>(
            (v, p + varlong30_bytes(v, min, version).len()),
        ),
{
    byte_range_values();
    if version >= COMPACT_VERSION {
        varlong_read_back(s, p, v, min);
    } else if 0 <= v <= 0x7FFF_FFFF {
        int_read_back(s, p, v as i32);
    } else {
        holds_split(s, p, int_bytes((-1) as i32), le_bytes(u64_of(v), 8));
        int_read_back(s, p, (-1) as i32);
        le_bytes_len(u64_of(v), 8);
        le_read_back(u64_of(v), 8);
    }
}

// ---------------------------------------------------------------------------
// File indices
// ---------------------------------------------------------------------------

/// The indices sent before, which the next index is relative to.
#[derive(Debug, Clone, Copy, PartialEq, Eq, Structural)]
pub struct NdxState {
    /// The last non-negative index.
    pub prev_positive: i32,
    /// The absolute value of the last negative index.
    pub prev_negative: i32,
}

impl NdxState {
    /// The state before any index.
    pub open spec fn initial() -> NdxState {
        NdxState { prev_positive: (-1) as i32, prev_negative: 1 }
    }
}

impl Default for NdxState {
    fn default() -> (r: NdxState)
        ensures
            r == NdxState::initial(),
    {
        NdxState { prev_positive: -1, prev_negative: 1 }
    }
}

/// The index whose absolute value is `num`, relative to `prev`.
pub open spec fn ndx_diff_bytes(num: int, prev: int) -> Seq<u8> {
    let diff = num - prev;
    if 0 < diff < 0xFE {
        seq![diff as u8]
    } else if diff < 0 || diff > 0x7FFF {
        seq![
            0xFEu8,
            (num / 0x100_0000 + 0x80) as u8,
            (num % 0x100) as u8,
            (num / 0x100 % 0x100) as u8,
            (num / 0x1_0000 % 0x100) as u8,
        ]
    } else {
        seq![0xFEu8, (diff / 0x100) as u8, (diff % 0x100) as u8]
    }
}

/// The wire form of an index.
pub open spec fn ndx_bytes(ndx: i32, st: NdxState, version: u8) -> Seq<u8> {
    if version < COMPACT_VERSION {
        int_bytes(ndx)
    } else if ndx >= 0 {
        ndx_diff_bytes(ndx as int, st.prev_positive as int)
    } else if ndx == NDX_DONE {
        seq![0u8]
    } else {
        seq![0xFFu8] + ndx_diff_bytes(-ndx, st.prev_negative as int)
    }
}

/// The state after an index.
pub open spec fn ndx_next(ndx: i32, st: NdxState, version: u8) -> NdxState {
    if version < COMPACT_VERSION || ndx == NDX_DONE {
        st
    } else if ndx >= 0 {
        NdxState { prev_positive: ndx, ..st }
    } else {
        NdxState { prev_negative: (-ndx) as i32, ..st }
    }
}

/// The absolute value of an index at a position, relative to `prev`.
pub open spec fn ndx_diff_at(s: Seq<u8>, p: int, prev: int) -> Result<
    (int, int),
    ProtocolErrorView,
> {
    if p >= s.len() {
        Err(eof_error())
    } else if s[p] == 0xFE {
        if p + 3 > s.len() {
            Err(eof_error())
        } else if s[p + 1] >= 0x80 {
            if p + 5 > s.len() {
                Err(eof_error())
            } else {
                Ok(
                    (
                        s[p + 2] + 0x100 * s[p + 3] + 0x1_0000 * s[p + 4] + 0x100_0000 * (s[p + 1]
                            - 0x80),
                        p + 5,
                    ),
                )
            }
        } else {
            Ok((0x100 * s[p + 1] + s[p + 2] + prev, p + 3))
        }
    } else {
        Ok((s[p] + prev, p + 1))
    }
}

/// The index at a position. An index that leaves the 32-bit range is refused.
pub open spec fn ndx_at(s: Seq<u8>, p: int, st: NdxState, version: u8) -> Result<
    (i32, int),
    ProtocolErrorView,
> {
    if version < COMPACT_VERSION {
        int_at(s, p)
    } else if p >= s.len() {
        Err(eof_error())
    } else if s[p] == 0 {
        Ok((NDX_DONE, p + 1))
    } else if s[p] == 0xFF {
        match ndx_diff_at(s, p + 1, st.prev_negative as int) {
            Ok((num, q)) => if -0x7FFF_FFFF <= num <= 0x7FFF_FFFF {
                Ok(((-num) as i32, q))
            } else {
                Err(ProtocolErrorView::InvalidVarint)
            },
            Err(e) => Err(e),
        }
    } else {
        match ndx_diff_at(s, p, st.prev_positive as int) {
            Ok((num, q)) => if -0x7FFF_FFFF <= num <= 0x7FFF_FFFF {
                Ok((num as i32, q))
            } else {
                Err(ProtocolErrorView::InvalidVarint)
            },
            Err(e) => Err(e),
        }
    }
}

/// The state after reading an index that starts with the given byte.
pub open spec fn ndx_read_next(first: u8, ndx: i32, st: NdxState, version: u8) -> NdxState {
    if version < COMPACT_VERSION || first == 0 {
        st
    } else if first == 0xFF {
        NdxState { prev_negative: (-ndx) as i32, ..st }
    } else {
        NdxState { prev_positive: ndx, ..st }
    }
}

/// Writes the absolute value of an index relative to the one before.
fn write_ndx_diff(w: &mut Vec<u8>, num: i32, prev: i32)
    requires
        num >= 0,
    ensures
        final(w)@ == old(w)@ + ndx_diff_bytes(num as int, prev as int),
{
    let diff: i64 = num as i64 - prev as i64;
    if 0 < diff && diff < 0xFE {
        w.push(diff as u8);
    } else if diff < 0 || diff > 0x7FFF {
        w.push(0xFE);
        w.push((num / 0x100_0000 + 0x80) as u8);
        w.push((num % 0x100) as u8);
        w.push((num / 0x100 % 0x100) as u8);
        w.push((num / 0x1_0000 % 0x100) as u8);
    } else {
        w.push(0xFE);
        w.push((diff / 0x100) as u8);
        w.push((diff % 0x100) as u8);
    }
    assert(w@ =~= old(w)@ + ndx_diff_bytes(num as int, prev as int));
}

/// Writes an index and remembers it.
pub fn write_ndx(w: &mut Vec<u8>, ndx: i32, st: &mut NdxState, version: u8)
    requires
        ndx > i32::MIN,
    ensures
        final(w)@ == old(w)@ + ndx_bytes(ndx, *old(st), version),
        *final(st) == ndx_next(ndx, *old(st), version),
{
    if version < COMPACT_VERSION {
        write_int(w, ndx);
    } else if ndx >= 0 {
        let prev = st.prev_positive;
        st.prev_positive = ndx;
        write_ndx_diff(w, ndx, prev);
    } else if ndx == NDX_DONE {
        w.push(0);
        assert(w@ =~= old(w)@ + seq![0u8]);
    } else {
        let num: i32 = -ndx;
        let prev = st.prev_negative;
        st.prev_negative = num;
        w.push(0xFF);
        write_ndx_diff(w, num, prev);
        assert(w@ =~= old(w)@ + ndx_bytes(ndx, *old(st), version));
    }
}

/// Reads the absolute value of an index relative to the one before.
fn read_ndx_diff(r: &mut WireReader, prev: i32) -> (res: Result<i64, ProtocolError>)
    requires
        old(r).wf(),
    ensures
        final(r).wf(),
        final(r).buf@ == old(r).buf@,
        match ndx_diff_at(old(r).buf@, old(r).pos as int, prev as int) {
            Ok((v, p)) => res == Ok::<i64, ProtocolError>(v as i64) && final(r).pos == p
                && -0x8000_0000 <= v <= 0x8001_0000,
            Err(f) => res is Err && res->Err_0@ == f,
        },
{
    let left: usize = r.buf.len() - r.pos;
    if left == 0 {
        return Err(make_eof());
    }
    let b0: u8 = r.buf[r.pos];
    if b0 == 0xFE {
        if left < 3 {
            return Err(make_eof());
        }
        let b1: u8 = r.buf[r.pos + 1];
        let b2: u8 = r.buf[r.pos + 2];
        if b1 >= 0x80 {
            if left < 5 {
                return Err(make_eof());
            }
            let b3: u8 = r.buf[r.pos + 3];
            let b4: u8 = r.buf[r.pos + 4];
            r.pos = r.pos + 5;
            Ok(
                b2 as i64 + 0x100 * (b3 as i64) + 0x1_0000 * (b4 as i64) + 0x100_0000 * (b1 as i64
                    - 0x80),
            )
        } else {
            r.pos = r.pos + 3;
            Ok(0x100 * (b1 as i64) + b2 as i64 + prev as i64)
        }
    } else {
        r.pos = r.pos + 1;
        Ok(b0 as i64 + prev as i64)
    }
}

/// Reads an index and remembers it. Nothing is remembered where reading fails.
pub fn read_ndx(r: &mut WireReader, st: &mut NdxState, version: u8) -> (res: Result<
    i32,
    ProtocolError,
>)
    requires
        old(r).wf(),
    ensures
        read_as(*old(r), *final(r), ndx_at(old(r).buf@, old(r).pos as int, *old(st), version), res),
        *final(st) == (match res {
            Ok(ndx) => ndx_read_next(old(r).buf@[old(r).pos as int], ndx, *old(st), version),
            Err(_) => *old(st),
        }),
{
    if version < COMPACT_VERSION {
        return read_int(r);
    }
    if r.pos >= r.buf.len() {
        return Err(make_eof());
    }
    let first: u8 = r.buf[r.pos];
    if first == 0 {
        r.pos = r.pos + 1;
        return Ok(NDX_DONE);
    }
    if first == 0xFF {
        r.pos = r.pos + 1;
        match read_ndx_diff(r, st.prev_negative) {
            Ok(num) => {
                if -0x7FFF_FFFF <= num && num <= 0x7FFF_FFFF {
                    st.prev_negative = num as i32;
                    Ok((0 - num) as i32)
                } else {
                    Err(ProtocolError::InvalidVarint)
                }
            },
            Err(e) => Err(e),
        }
    } else {
        match read_ndx_diff(r, st.prev_positive) {
            Ok(num) => {
                if -0x7FFF_FFFF <= num && num <= 0x7FFF_FFFF {
                    st.prev_positive = num as i32;
                    Ok(num as i32)
                } else {
                    Err(ProtocolError::InvalidVarint)
                }
            },
            Err(e) => Err(e),
        }
    }
}

/// Reading an index goes on.
pub proof fn ndx_goes_on(s: Seq<u8>, p: int, st: NdxState, version: u8)
    ensures
        ndx_at(s, p, st, version) is Ok ==> p < ndx_at(s, p, st, version)->Ok_0.1,
        p >= s.len() ==> ndx_at(s, p, st, version) == Err::<(i32, int), ProtocolErrorView>(
            eof_error(),
        ),
{
}

/// Reading a written index gives it back, and both sides remember the same.
pub proof fn ndx_read_back(s: Seq<u8>, p: int, ndx: i32, st: NdxState, version: u8)
    requires
        ndx > i32::MIN,
        holds_at(s, p, ndx_bytes(ndx, st, version)),
    ensures
        ndx_at(s, p, st, version) == Ok::<(i32, int), ProtocolErrorView>(
            (ndx, p + ndx_bytes(ndx, st, version).len()),
        ),
        ndx_read_next(s[p], ndx, st, version) == ndx_next(ndx, st, version),
{
    let w = ndx_bytes(ndx, st, version);
    if version < COMPACT_VERSION {
        int_read_back(s, p, ndx);
    } else if ndx == NDX_DONE {
        holds_index(s, p, w, 0);
    } else if ndx >= 0 {
        ndx_diff_read_back(s, p, ndx as int, st.prev_positive as int);
    } else {
        holds_split(s, p, seq![0xFFu8], ndx_diff_bytes(-ndx, st.prev_negative as int));
        holds_index(s, p, w, 0);
        ndx_diff_read_back(s, p + 1, -ndx, st.prev_negative as int);
    }
}

proof fn ndx_diff_read_back(s: Seq<u8>, p: int, num: int, prev: int)
    requires
        0 <= num <= 0x7FFF_FFFF,
        holds_at(s, p, ndx_diff_bytes(num, prev)),
    ensures
        ndx_diff_at(s, p, prev) == Ok::<(int, int), ProtocolErrorView>(
            (num, p + ndx_diff_bytes(num, prev).len()),
        ),
        s[p] != 0,
        s[p] != 0xFF,
{
    let w = ndx_diff_bytes(num, prev);
    let diff = num - prev;
    holds_index(s, p, w, 0);
    if 0 < diff < 0xFE {
    } else if diff < 0 || diff > 0x7FFF {
        holds_index(s, p, w, 1);
        holds_index(s, p, w, 2);
        holds_index(s, p, w, 3);
        holds_index(s, p, w, 4);
    } else {
        holds_index(s, p, w, 1);
        holds_index(s, p, w, 2);
    }
}

} // verus!
