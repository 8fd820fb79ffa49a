//! Byte streams and little-endian numbers.

use vstd::prelude::*;

use crate::error::{eof_error, make_eof, ProtocolError, ProtocolErrorView};

verus! {

// ---------------------------------------------------------------------------
// Bytes inside a stream
// ---------------------------------------------------------------------------

/// Whether the stream `s` holds the bytes `b` at position `p`.
pub open spec fn holds_at(s: Seq<u8>, p: int, b: Seq<u8>) -> bool {
    0 <= p && p + b.len() <= s.len() && s.subrange(p, p + b.len()) =~= b
}

/// A stream holds two runs of bytes back to back when it holds each in its place.
pub proof fn holds_split(s: Seq<u8>, p: int, a: Seq<u8>, b: Seq<u8>)
    ensures
        holds_at(s, p, a + b) == (holds_at(s, p, a) && holds_at(s, p + a.len(), b)),
{
    let w = s.subrange(p, p + (a + b).len());
    if holds_at(s, p, a + b) {
        assert(s.subrange(p, p + a.len()) =~= w.subrange(0, a.len() as int));
        assert(s.subrange(p + a.len(), p + a.len() + b.len()) =~= w.subrange(
            a.len() as int,
            (a + b).len() as int,
        ));
        assert(w.subrange(0, a.len() as int) =~= a);
        assert(w.subrange(a.len() as int, (a + b).len() as int) =~= b);
    }
    if holds_at(s, p, a) && holds_at(s, p + a.len(), b) {
        assert forall|i: int| 0 <= i < (a + b).len() implies w[i] == (a + b)[i] by {
            if i < a.len() {
                assert(s.subrange(p, p + a.len())[i] == a[i]);
            } else {
                assert(s.subrange(p + a.len(), p + a.len() + b.len())[i - a.len()] == b[i
                    - a.len()]);
            }
        }
        assert(w =~= a + b);
    }
}

/// A stream holds each byte of a run in its place.
pub proof fn holds_index(s: Seq<u8>, p: int, b: Seq<u8>, i: int)
    requires
        holds_at(s, p, b),
        0 <= i < b.len(),
    ensures
        s[p + i] == b[i],
{
    assert(s.subrange(p, p + b.len())[i] == b[i]);
}

// ---------------------------------------------------------------------------
// Little-endian numbers
// ---------------------------------------------------------------------------

/// The lowest `n` bytes of a number, lowest first.
pub open spec fn le_bytes(v: nat, n: nat) -> Seq<u8>
    decreases n,
{
    if n == 0 {
        Seq::empty()
    } else {
        seq![(v % 256) as u8] + le_bytes(v / 256, (n - 1) as nat)
    }
}

/// The number whose bytes, lowest first, are given.
pub open spec fn le_value(s: Seq<u8>) -> nat
    decreases s.len(),
{
    if s.len() == 0 {
        0
    } else {
        s[0] as nat + 256 * le_value(s.skip(1))
    }
}

/// How many numbers fit in `n` bytes.
pub open spec fn byte_range(n: nat) -> nat
    decreases n,
{
    if n == 0 {
        1
    } else {
        256 * byte_range((n - 1) as nat)
    }
}

/// The ranges of the widths in use.
pub proof fn byte_range_values()
    ensures
        byte_range(2) == 0x1_0000,
        byte_range(4) == 0x1_0000_0000,
        byte_range(8) == 0x1_0000_0000_0000_0000,
{
    reveal_with_fuel(byte_range, 9);
}

/// The bytes of a number are as many as asked for.
pub proof fn le_bytes_len(v: nat, n: nat)
    ensures
        le_bytes(v, n).len() == n,
    decreases n,
{
    if n > 0 {
        le_bytes_len(v / 256, (n - 1) as nat);
    }
}

/// Reading the bytes of a number gives the number back.
pub proof fn le_read_back(v: nat, n: nat)
    requires
        v < byte_range(n),
    ensures
        le_value(le_bytes(v, n)) == v,
    decreases n,
{
    if n > 0 {
        assert(v / 256 < byte_range((n - 1) as nat));
        le_read_back(v / 256, (n - 1) as nat);
        assert(le_bytes(v, n).skip(1) =~= le_bytes(v / 256, (n - 1) as nat));
    }
}

/// A number read from bytes fits in as many bytes.
pub proof fn le_value_bound(s: Seq<u8>)
    ensures
        le_value(s) < byte_range(s.len()),
    decreases s.len(),
{
    if s.len() > 0 {
        le_value_bound(s.skip(1));
    }
}

/// Zero bytes at the top do not change a number.
pub proof fn le_value_top_zeros(s: Seq<u8>, n: int)
    requires
        0 <= n <= s.len(),
        forall|i: int| n <= i < s.len() ==> s[i] == 0,
    ensures
        le_value(s) == le_value(s.take(n)),
    decreases s.len(),
{
    if s.len() > 0 {
        let t = s.skip(1);
        if n == 0 {
            assert(s[0] == 0);
            assert forall|i: int| 0 <= i < t.len() implies t[i] == 0 by {
                assert(t[i] == s[i + 1]);
            }
            le_value_top_zeros(t, 0);
            assert(t.take(0) =~= s.take(0));
        } else {
            assert forall|i: int| n - 1 <= i < t.len() implies t[i] == 0 by {
                assert(t[i] == s[i + 1]);
            }
            le_value_top_zeros(t, n - 1);
            assert(s.take(n).skip(1) =~= t.take(n - 1));
            assert(s.take(n)[0] == s[0]);
        }
    } else {
        assert(s.take(n) =~= s);
    }
}

/// Appends the lowest `n` bytes of a number, lowest first.
pub fn push_le(w: &mut Vec<u8>, v: u64, n: usize)
    ensures
        final(w)@ == old(w)@ + le_bytes(v as nat, n as nat),
    decreases n,
{
    if n > 0 {
        let ghost before = w@;
        w.push((v % 256) as u8);
        push_le(w, v / 256, n - 1);
        assert(w@ =~= before + le_bytes(v as nat, n as nat));
    } else {
        assert(w@ =~= w@ + le_bytes(v as nat, 0));
    }
}

/// The number whose bytes stand in `buf` from `pos` on.
pub fn get_le(buf: &[u8], pos: usize, n: usize) -> (r: u64)
    requires
        pos + n <= buf.len(),
        n <= 8,
    ensures
        r == le_value(buf@.subrange(pos as int, pos + n)),
    decreases n,
{
    let ghost s = buf@.subrange(pos as int, pos + n);
    proof {
        le_value_bound(s);
        reveal_with_fuel(byte_range, 9);
    }
    if n == 0 {
        0
    } else {
        let high = get_le(buf, pos + 1, n - 1);
        proof {
            assert(s.skip(1) =~= buf@.subrange(pos + 1, pos + 1 + (n - 1)));
            le_value_bound(s.skip(1));
        }
        buf[pos] as u64 + 256 * high
    }
}

// ---------------------------------------------------------------------------
// Reading position
// ---------------------------------------------------------------------------

/// A byte stream that has arrived, and how far it has been read.
pub struct WireReader<'a> {
    /// All bytes of the stream.
    pub buf: &'a [u8],
    /// The number of bytes already read.
    pub pos: usize,
}

impl<'a> WireReader<'a> {
    /// The position lies inside the stream.
    pub open spec fn wf(&self) -> bool {
        self.pos <= self.buf.len()
    }

    /// Starts at the beginning of a stream.
    pub fn new(buf: &'a [u8]) -> (r: WireReader<'a>)
        ensures
            r.wf(),
            r.buf@ == buf@,
            r.pos == 0,
    {
        WireReader { buf, pos: 0 }
    }

    /// The number of bytes still to be read.
    pub fn remaining(&self) -> (r: usize)
        requires
            self.wf(),
        ensures
            r == self.buf.len() - self.pos,
    {
        self.buf.len() - self.pos
    }
}

/// What a read of a plain value must come to: the value and the position
/// behind it, or the error, as `expect` says; the stream stays the same.
pub open spec fn read_as<T>(
    before: WireReader,
    after: WireReader,
    expect: Result<(T, int), ProtocolErrorView>,
    got: Result<T, ProtocolError>,
) -> bool {
    &&& after.wf()
    &&& after.buf@ == before.buf@
    &&& match expect {
        Ok((v, p)) => got == Ok::<T, ProtocolError>(v) && after.pos == p,
        Err(f) => got is Err && got->Err_0@ == f,
    }
}

/// What a read of a byte string must come to.
pub open spec fn read_as_bytes(
    before: WireReader,
    after: WireReader,
    expect: Result<(Seq<u8>, int), ProtocolErrorView>,
    got: Result<Vec<u8>, ProtocolError>,
) -> bool {
    &&& after.wf()
    &&& after.buf@ == before.buf@
    &&& match expect {
        Ok((v, p)) => got is Ok && got->Ok_0@ == v && after.pos == p,
        Err(f) => got is Err && got->Err_0@ == f,
    }
}

/// The `n` bytes at a position.
pub open spec fn bytes_at(s: Seq<u8>, p: int, n: int) -> Result<
    (Seq<u8>, int),
    ProtocolErrorView,
> {
    if p + n <= s.len() {
        Ok((s.subrange(p, p + n), p + n))
    } else {
        Err(eof_error())
    }
}

/// The byte at a position.
pub open spec fn byte_at(s: Seq<u8>, p: int) -> Result<(u8, int), ProtocolErrorView> {
    if p + 1 <= s.len() {
        Ok((s[p], p + 1))
    } else {
        Err(eof_error())
    }
}

/// Reads one byte.
pub fn read_byte(r: &mut WireReader) -> (res: Result<u8, ProtocolError>)
    requires
        old(r).wf(),
    ensures
        read_as(*old(r), *final(r), byte_at(old(r).buf@, old(r).pos as int), res),
{
    if r.pos < r.buf.len() {
        let b = r.buf[r.pos];
        r.pos = r.pos + 1;
        Ok(b)
    } else {
        Err(make_eof())
    }
}

/// Reads exactly `n` bytes.
pub fn read_bytes(r: &mut WireReader, n: usize) -> (res: Result<Vec<u8>, ProtocolError>)
    requires
        old(r).wf(),
    ensures
        read_as_bytes(*old(r), *final(r), bytes_at(old(r).buf@, old(r).pos as int, n as int), res),
{
    if n <= r.buf.len() - r.pos {
        let part = vstd::slice::slice_subrange(r.buf, r.pos, r.pos + n);
        let v = vstd::slice::slice_to_vec(part);
        r.pos = r.pos + n;
        Ok(v)
    } else {
        Err(make_eof())
    }
}

/// Appends one byte.
pub fn write_byte(w: &mut Vec<u8>, b: u8)
    ensures
        final(w)@ == old(w)@ + seq![b],
{
    w.push(b);
    assert(w@ =~= old(w)@ + seq![b]);
}

/// Appends a run of bytes.
pub fn write_bytes(w: &mut Vec<u8>, b: &[u8])
    ensures
        final(w)@ == old(w)@ + b@,
{
    w.extend_from_slice(b);
    assert(w@ =~= old(w)@ + b@);
}

} // verus!
