//! Per-field encoding and decoding of file list entries.
//!
//! Each field has its wire form as a spec function, the reading of that form
//! at a position of a stream, the executable writer and reader, and a proof
//! that reading gives back what was written.

use vstd::prelude::*;

use crate::error::{ProtocolError, ProtocolErrorView};
use crate::filelist::codec::options::FileListOptions;
use crate::filelist::entry::{
    copy_bytes, file_type, rdev_major_of, rdev_minor_of, S_IFBLK, S_IFCHR, S_IFIFO, S_IFMT,
    S_IFREG, S_IFSOCK, WIRE_S_IFLNK,
};
use crate::filelist::xmit::{
    has_flag, XMIT_EXTENDED_FLAGS, XMIT_IO_ERROR_ENDLIST, XMIT_LONG_NAME, XMIT_MOD_NSEC,
    XMIT_RDEV_MINOR_8_PRE30, XMIT_SAME_MODE, XMIT_SAME_NAME, XMIT_SAME_RDEV_MAJOR,
    XMIT_SAME_RDEV_PRE28, XMIT_SAME_TIME, XMIT_TOP_DIR,
};
use crate::protocol::varint::{
    as_i32, as_u32, as_u64, i32_of, int_at, int_bytes, int_read_back, read_int, read_varint,
    read_varint30, read_varlong, u32_of, u64_of, varint30_at, varint30_bytes, varint30_read_back,
    varint_at, varint_bytes, varint_read_back, varlong_at, varlong_bytes, varlong_read_back,
    write_int, write_shortint, write_varint, write_varint30, write_varlong,
};
use crate::protocol::wire::{
    byte_at, bytes_at, holds_at, holds_index, holds_split, le_bytes, read_as, read_as_bytes,
    read_byte, read_bytes, write_byte, write_bytes, WireReader,
};
use crate::text::{decimal, from_chars, numeral_chars, push_chars, push_text};

verus! {

/// The longest name or link target that is accepted.
pub const MAX_NAME_LEN: u64 = 65536;

/// The low 32 bits of a length.
pub open spec fn low32(n: nat) -> u32 {
    (n % 0x1_0000_0000) as u32
}

fn take_low32(n: usize) -> (r: u32)
    ensures
        r == low32(n as nat),
{
    (n as u64 % 0x1_0000_0000) as u32
}

// ---------------------------------------------------------------------------
// Flags
// ---------------------------------------------------------------------------

/// What the flags field of a record turns out to be.
#[derive(Debug, Clone, Copy, PartialEq, Eq, Structural)]
pub enum DecodedFlags {
    /// An entry with these flags follows.
    Entry(u32),
    /// The list ends here.
    EndOfList { io_error: i32 },
}

/// The flags as sent: never zero, which would end the list.
pub open spec fn wire_flags(flags: u32, opts: FileListOptions) -> u32 {
    if opts.xfer_flags_as_varint {
        if flags == 0 {
            XMIT_EXTENDED_FLAGS
        } else {
            flags
        }
    } else if opts.protocol_version >= 28 {
        if flags & 0xFF00 != 0 || flags == 0 {
            flags | XMIT_EXTENDED_FLAGS
        } else {
            flags
        }
    } else if flags & 0xFF == 0 {
        XMIT_TOP_DIR
    } else {
        flags & 0xFF
    }
}

/// The bytes of the flags field.
pub open spec fn flags_bytes(flags: u32, opts: FileListOptions) -> Seq<u8> {
    let wire = wire_flags(flags, opts);
    if opts.xfer_flags_as_varint {
        varint_bytes(wire)
    } else if opts.protocol_version >= 28 && (flags & 0xFF00 != 0 || flags == 0) {
        le_bytes((wire % 0x1_0000) as nat, 2)
    } else {
        seq![(wire % 0x100) as u8]
    }
}

/// The flags field at a position.
pub open spec fn flags_at(s: Seq<u8>, p: int, opts: FileListOptions) -> Result<
    (DecodedFlags, int),
    ProtocolErrorView,
> {
    if opts.xfer_flags_as_varint {
        match varint_at(s, p) {
            Ok((f, q)) => if f == 0 {
                match varint_at(s, q) {
                    Ok((e, q2)) => Ok(
                        (DecodedFlags::EndOfList { io_error: i32_of(e as nat) }, q2),
                    ),
                    Err(e) => Err(e),
                }
            } else {
                Ok((DecodedFlags::Entry(f), q))
            },
            Err(e) => Err(e),
        }
    } else {
        match byte_at(s, p) {
            Ok((first, q)) => if first == 0 {
                Ok((DecodedFlags::EndOfList { io_error: 0 }, q))
            } else if opts.protocol_version >= 28 && has_flag(first as u32, XMIT_EXTENDED_FLAGS) {
                match byte_at(s, q) {
                    Ok((second, q2)) => {
                        let f = (first + 256 * second) as u32;
                        if f == XMIT_EXTENDED_FLAGS + XMIT_IO_ERROR_ENDLIST {
                            match varint_at(s, q2) {
                                Ok((e, q3)) => Ok(
                                    (DecodedFlags::EndOfList { io_error: i32_of(e as nat) }, q3),
                                ),
                                Err(e) => Err(e),
                            }
                        } else {
                            Ok((DecodedFlags::Entry(f), q2))
                        }
                    },
                    Err(e) => Err(e),
                }
            } else {
                Ok((DecodedFlags::Entry(first as u32), q))
            },
            Err(e) => Err(e),
        }
    }
}

/// Writes the flags field.
pub fn encode_xmit_flags(w: &mut Vec<u8>, flags: u32, opts: &FileListOptions)
    ensures
        final(w)@ == old(w)@ + flags_bytes(flags, *opts),
{
    if opts.xfer_flags_as_varint {
        // A value of zero would end the list.
        let wire: u32 = if flags == 0 {
            XMIT_EXTENDED_FLAGS
        } else {
            flags
        };
        write_varint(w, wire);
    } else if opts.protocol_version >= 28 {
        if (flags & 0xFF00) != 0 || flags == 0 {
            let wire: u32 = flags | XMIT_EXTENDED_FLAGS;
            write_shortint(w, (wire % 0x1_0000) as u16);
        } else {
            write_byte(w, (flags % 0x100) as u8);
        }
    } else {
        let mut low: u32 = flags & 0xFF;
        if low == 0 {
            low = XMIT_TOP_DIR;
        }
        write_byte(w, (low % 0x100) as u8);
    }
}

/// Reads the flags field.
pub fn decode_xmit_flags(r: &mut WireReader, opts: &FileListOptions) -> (res: Result<
    DecodedFlags,
    ProtocolError,
>)
    requires
        old(r).wf(),
    ensures
        read_as(*old(r), *final(r), flags_at(old(r).buf@, old(r).pos as int, *opts), res),
{
    if opts.xfer_flags_as_varint {
        let f = match read_varint(r) {
            Ok(f) => f,
            Err(e) => {
                return Err(e);
            },
        };
        if f == 0 {
            return match read_varint(r) {
                Ok(e) => Ok(DecodedFlags::EndOfList { io_error: as_i32(e) }),
                Err(e) => Err(e),
            };
        }
        return Ok(DecodedFlags::Entry(f));
    }
    let first = match read_byte(r) {
        Ok(b) => b,
        Err(e) => {
            return Err(e);
        },
    };
    if first == 0 {
        return Ok(DecodedFlags::EndOfList { io_error: 0 });
    }
    if opts.protocol_version >= 28 && (first as u32 & XMIT_EXTENDED_FLAGS) != 0 {
        let second = match read_byte(r) {
            Ok(b) => b,
            Err(e) => {
                return Err(e);
            },
        };
        let f: u32 = first as u32 + 256 * (second as u32);
        if f == XMIT_EXTENDED_FLAGS + XMIT_IO_ERROR_ENDLIST {
            return match read_varint(r) {
                Ok(e) => Ok(DecodedFlags::EndOfList { io_error: as_i32(e) }),
                Err(e) => Err(e),
            };
        }
        return Ok(DecodedFlags::Entry(f));
    }
    Ok(DecodedFlags::Entry(first as u32))
}

/// The bytes that end a list.
pub open spec fn end_bytes(io_error: i32, opts: FileListOptions) -> Seq<u8> {
    if opts.xfer_flags_as_varint {
        varint_bytes(0) + varint_bytes(u32_of(io_error) as u32)
    } else if io_error != 0 {
        le_bytes((XMIT_EXTENDED_FLAGS + XMIT_IO_ERROR_ENDLIST) as nat, 2) + varint_bytes(
            u32_of(io_error) as u32,
        )
    } else {
        seq![0u8]
    }
}

/// Write the end-of-file-list marker.
pub fn write_end_of_flist(w: &mut Vec<u8>, io_error: i32, opts: &FileListOptions)
    ensures
        final(w)@ == old(w)@ + end_bytes(io_error, *opts),
{
    if opts.xfer_flags_as_varint {
        write_varint(w, 0);
        write_varint(w, as_u32(io_error));
    } else if io_error != 0 {
        write_shortint(w, (XMIT_EXTENDED_FLAGS + XMIT_IO_ERROR_ENDLIST) as u16);
        write_varint(w, as_u32(io_error));
    } else {
        write_byte(w, 0);
    }
    assert(w@ =~= old(w)@ + end_bytes(io_error, *opts));
}

/// The end marker is read back as the end of the list with its error code.
/// Before protocol 28 only a list without an error can be ended.
pub proof fn end_read_back(s: Seq<u8>, p: int, io_error: i32, opts: FileListOptions)
    requires
        holds_at(s, p, end_bytes(io_error, opts)),
        opts.protocol_version >= 28 || io_error == 0 || opts.xfer_flags_as_varint,
    ensures
        flags_at(s, p, opts) == Ok::<(DecodedFlags, int), ProtocolErrorView>(
            (DecodedFlags::EndOfList { io_error }, p + end_bytes(io_error, opts).len()),
        ),
{
    let code = u32_of(io_error) as u32;
    if opts.xfer_flags_as_varint {
        holds_split(s, p, varint_bytes(0), varint_bytes(code));
        varint_read_back(s, p, 0);
        varint_read_back(s, p + varint_bytes(0).len(), code);
    } else if io_error != 0 {
        let mark = le_bytes((XMIT_EXTENDED_FLAGS + XMIT_IO_ERROR_ENDLIST) as nat, 2);
        holds_split(s, p, mark, varint_bytes(code));
        reveal_with_fuel(le_bytes, 3);
        assert(mark =~= seq![4u8, 16u8]);
        holds_index(s, p, mark, 0);
        holds_index(s, p, mark, 1);
        assert(4u32 & 4u32 != 0) by (bit_vector);
        varint_read_back(s, p + 2, code);
    } else {
        holds_index(s, p, end_bytes(io_error, opts), 0);
    }
}

/// Flags that an encoder produces are below 2^16, and before protocol 28 they
/// fit in one byte.
pub open spec fn sendable_flags(flags: u32, opts: FileListOptions) -> bool {
    &&& flags < 0x4000
    &&& opts.protocol_version < 28 ==> flags < 0x100
    &&& opts.protocol_version >= 28 ==> !has_flag(flags, XMIT_EXTENDED_FLAGS)
    &&& flags != XMIT_IO_ERROR_ENDLIST
}

/// Sent flags are read back as sent.
pub proof fn flags_read_back(s: Seq<u8>, p: int, flags: u32, opts: FileListOptions)
    requires
        holds_at(s, p, flags_bytes(flags, opts)),
        opts.wf(),
        sendable_flags(flags, opts),
    ensures
        flags_at(s, p, opts) == Ok::<(DecodedFlags, int), ProtocolErrorView>(
            (
                DecodedFlags::Entry(wire_flags(flags, opts)),
                p + flags_bytes(flags, opts).len(),
            ),
        ),
{
    let wire = wire_flags(flags, opts);
    if opts.xfer_flags_as_varint {
        varint_read_back(s, p, wire);
    } else if opts.protocol_version >= 28 && (flags & 0xFF00 != 0 || flags == 0) {
        let b = flags_bytes(flags, opts);
        assert(flags < 0x4000 ==> (flags | 4) < 0x4000 && ((flags | 4) % 256) & 4 != 0 && (flags
            | 4) % 256 != 0) by (bit_vector);
        assert(flags | 4 == 0x1004 && flags & 4 == 0 ==> flags == 0x1000) by (bit_vector);
        reveal_with_fuel(le_bytes, 3);
        assert(b =~= seq![(wire % 256) as u8, (wire / 256) as u8]);
        holds_index(s, p, b, 0);
        holds_index(s, p, b, 1);
    } else {
        let b = flags_bytes(flags, opts);
        holds_index(s, p, b, 0);
        assert(flags & 0xFF00 == 0 && flags < 0x4000 ==> flags < 0x100) by (bit_vector);
        assert(flags < 0x100 ==> flags & 0xFF == flags) by (bit_vector);
    }
}

/// Sending leaves the meaning of every flag but the markers as it is.
pub proof fn wire_flags_keep(flags: u32, opts: FileListOptions, flag: u32)
    requires
        sendable_flags(flags, opts),
        flag & 0x5 == 0,
    ensures
        has_flag(wire_flags(flags, opts), flag) == has_flag(flags, flag),
{
    assert(flag & 5 == 0 ==> (flags | 4) & flag == flags & flag) by (bit_vector);
    assert(flag & 5 == 0 ==> 4 & flag == 0) by (bit_vector);
    assert(flag & 5 == 0 ==> 1 & flag == 0) by (bit_vector);
    assert(0 & flag == 0) by (bit_vector);
    assert(flags < 0x100 ==> flags & 0xFF == flags) by (bit_vector);
}

// ---------------------------------------------------------------------------
// Filename
// ---------------------------------------------------------------------------

/// How far two names agree from a position on, up to 255 bytes in all.
pub open spec fn prefix_from(a: Seq<u8>, b: Seq<u8>, from: int) -> int
    decreases 255 - from,
{
    if from >= 255 || from >= a.len() || from >= b.len() || a[from] != b[from] {
        from
    } else {
        prefix_from(a, b, from + 1)
    }
}

/// The length of the common prefix of two names, which is sent as one byte.
pub open spec fn common_prefix(a: Seq<u8>, b: Seq<u8>) -> int {
    prefix_from(a, b, 0)
}

/// Two names agree on their common prefix, and no further below 255 bytes.
pub proof fn common_prefix_agrees(a: Seq<u8>, b: Seq<u8>)
    ensures
        0 <= common_prefix(a, b) <= 255,
        common_prefix(a, b) <= a.len(),
        common_prefix(a, b) <= b.len(),
        a.take(common_prefix(a, b)) =~= b.take(common_prefix(a, b)),
        ({
            let n = common_prefix(a, b);
            n < 255 && n < a.len() && n < b.len() ==> a[n] != b[n]
        }),
{
    prefix_from_agrees(a, b, 0);
}

proof fn prefix_from_agrees(a: Seq<u8>, b: Seq<u8>, from: int)
    requires
        0 <= from <= 255,
        from <= a.len(),
        from <= b.len(),
        forall|i: int| 0 <= i < from ==> a[i] == b[i],
    ensures
        ({
            let n = prefix_from(a, b, from);
            &&& from <= n <= 255
            &&& n <= a.len()
            &&& n <= b.len()
            &&& forall|i: int| 0 <= i < n ==> a[i] == b[i]
            &&& n < 255 && n < a.len() && n < b.len() ==> a[n] != b[n]
        }),
    decreases 255 - from,
{
    if !(from >= 255 || from >= a.len() || from >= b.len() || a[from] != b[from]) {
        prefix_from_agrees(a, b, from + 1);
    }
}

/// Compute the length of the common prefix between two byte slices, at most 255.
pub fn common_prefix_len(a: &[u8], b: &[u8]) -> (r: usize)
    ensures
        r == common_prefix(a@, b@),
        r <= 255,
        r <= a.len(),
        r <= b.len(),
{
    let mut i: usize = 0;
    while i < 255 && i < a.len() && i < b.len() && a[i] == b[i]
        invariant
            i <= 255,
            i <= a.len(),
            i <= b.len(),
            common_prefix(a@, b@) == prefix_from(a@, b@, i as int),
        decreases 255 - i,
    {
        i += 1;
    }
    i
}

/// The bytes of the name field.
pub open spec fn name_bytes(name: Seq<u8>, prev: Seq<u8>, version: u8) -> Seq<u8> {
    let n = common_prefix(prev, name);
    let suffix = name.len() - n;
    (if n > 0 {
        seq![n as u8]
    } else {
        Seq::empty()
    }) + (if suffix > 255 {
        varint30_bytes(low32(suffix as nat), version)
    } else {
        seq![suffix as u8]
    }) + name.skip(n)
}

/// The prefix length at a position.
pub open spec fn prefix_len_at(s: Seq<u8>, p: int, flags: u32) -> Result<
    (int, int),
    ProtocolErrorView,
> {
    if has_flag(flags, XMIT_SAME_NAME) {
        match byte_at(s, p) {
            Ok((b, q)) => Ok((b as int, q)),
            Err(e) => Err(e),
        }
    } else {
        Ok((0, p))
    }
}

/// The suffix length at a position.
pub open spec fn suffix_len_at(s: Seq<u8>, p: int, flags: u32, version: u8) -> Result<
    (int, int),
    ProtocolErrorView,
> {
    if has_flag(flags, XMIT_LONG_NAME) {
        match varint30_at(s, p, version) {
            Ok((n, q)) => Ok((n as int, q)),
            Err(e) => Err(e),
        }
    } else {
        match byte_at(s, p) {
            Ok((b, q)) => Ok((b as int, q)),
            Err(e) => Err(e),
        }
    }
}

/// The message of a prefix that is longer than the previous name.
pub open spec fn prefix_message(prefix: int, prev_len: int) -> Seq<char> {
    "filename prefix length "@ + decimal(prefix as nat) + " exceeds previous name length "@
        + decimal(prev_len as nat)
}

/// The name at a position.
pub open spec fn name_at(s: Seq<u8>, p: int, prev: Seq<u8>, flags: u32, version: u8) -> Result<
    (Seq<u8>, int),
    ProtocolErrorView,
> {
    match prefix_len_at(s, p, flags) {
        Err(e) => Err(e),
        Ok((prefix, q)) => match suffix_len_at(s, q, flags, version) {
            Err(e) => Err(e),
            Ok((suffix, q2)) => if prefix + suffix > MAX_NAME_LEN {
                Err(
                    ProtocolErrorView::WireValueOutOfRange {
                        field: "filename_len"@,
                        value: (prefix + suffix) as i64,
                        max: MAX_NAME_LEN as i64,
                    },
                )
            } else if prefix > prev.len() {
                Err(
                    ProtocolErrorView::Handshake {
                        message: prefix_message(prefix, prev.len() as int),
                    },
                )
            } else {
                match bytes_at(s, q2, suffix) {
                    Ok((b, q3)) => Ok((prev.take(prefix) + b, q3)),
                    Err(e) => Err(e),
                }
            },
        },
    }
}

/// Writes the name field.
pub fn encode_filename(w: &mut Vec<u8>, name: &[u8], prev: &[u8], version: u8)
    ensures
        final(w)@ == old(w)@ + name_bytes(name@, prev@, version),
{
    let n = common_prefix_len(prev, name);
    let suffix: usize = name.len() - n;
    if n > 0 {
        w.push(n as u8);
    }
    if suffix > 255 {
        write_varint30(w, take_low32(suffix), version);
    } else {
        w.push(suffix as u8);
    }
    let rest = vstd::slice::slice_subrange(name, n, name.len());
    assert(rest@ =~= name@.skip(n as int));
    write_bytes(w, rest);
    assert(w@ =~= old(w)@ + name_bytes(name@, prev@, version));
}

fn prefix_error(prefix: u64, prev_len: u64) -> (r: ProtocolError)
    ensures
        r@ == (ProtocolErrorView::Handshake {
            message: prefix_message(prefix as int, prev_len as int),
        }),
{
    let mut out: Vec<char> = Vec::new();
    push_text(&mut out, "filename prefix length ");
    let a = numeral_chars(prefix, 10);
    push_chars(&mut out, a.as_slice());
    push_text(&mut out, " exceeds previous name length ");
    let b = numeral_chars(prev_len, 10);
    push_chars(&mut out, b.as_slice());
    assert(out@ =~= prefix_message(prefix as int, prev_len as int));
    ProtocolError::Handshake { message: from_chars(out.as_slice()) }
}

/// Reads the name field.
pub fn decode_filename(r: &mut WireReader, prev: &[u8], flags: u32, version: u8) -> (res: Result<
    Vec<u8>,
    ProtocolError,
>)
    requires
        old(r).wf(),
    ensures
        read_as_bytes(
            *old(r),
            *final(r),
            name_at(old(r).buf@, old(r).pos as int, prev@, flags, version),
            res,
        ),
{
    let prefix: u64 = if (flags & XMIT_SAME_NAME) != 0 {
        match read_byte(r) {
            Ok(b) => b as u64,
            Err(e) => {
                return Err(e);
            },
        }
    } else {
        0
    };
    let suffix: u64 = if (flags & XMIT_LONG_NAME) != 0 {
        match read_varint30(r, version) {
            Ok(n) => n as u64,
            Err(e) => {
                return Err(e);
            },
        }
    } else {
        match read_byte(r) {
            Ok(b) => b as u64,
            Err(e) => {
                return Err(e);
            },
        }
    };
    // Guard against hostile name lengths.
    if prefix + suffix > MAX_NAME_LEN {
        return Err(
            ProtocolError::WireValueOutOfRange {
                field: "filename_len",
                value: (prefix + suffix) as i64,
                max: MAX_NAME_LEN as i64,
            },
        );
    }
    if prefix > prev.len() as u64 {
        return Err(prefix_error(prefix, prev.len() as u64));
    }
    let head = vstd::slice::slice_subrange(prev, 0, prefix as usize);
    assert(head@ =~= prev@.take(prefix as int));
    let mut name = copy_bytes(head);
    match read_bytes(r, suffix as usize) {
        Ok(mut b) => {
            name.append(&mut b);
            Ok(name)
        },
        Err(e) => Err(e),
    }
}

/// A sent name is read back, where the flags say how it was sent and both
/// sides remember the same previous name.
pub proof fn name_read_back(
    s: Seq<u8>,
    p: int,
    name: Seq<u8>,
    prev: Seq<u8>,
    flags: u32,
    version: u8,
)
    requires
        holds_at(s, p, name_bytes(name, prev, version)),
        name.len() <= MAX_NAME_LEN,
        has_flag(flags, XMIT_SAME_NAME) == (common_prefix(prev, name) > 0),
        has_flag(flags, XMIT_LONG_NAME) == (name.len() - common_prefix(prev, name) > 255),
    ensures
        name_at(s, p, prev, flags, version) == Ok::<(Seq<u8>, int), ProtocolErrorView>(
            (name, p + name_bytes(name, prev, version).len()),
        ),
{
    common_prefix_agrees(prev, name);
    let n = common_prefix(prev, name);
    let suffix = name.len() - n;
    let a: Seq<u8> = if n > 0 {
        seq![n as u8]
    } else {
        Seq::empty()
    };
    let b: Seq<u8> = if suffix > 255 {
        varint30_bytes(low32(suffix as nat), version)
    } else {
        seq![suffix as u8]
    };
    let c = name.skip(n);
    assert(name_bytes(name, prev, version) =~= a + b + c);
    holds_split(s, p, a + b, c);
    holds_split(s, p, a, b);
    if n > 0 {
        holds_index(s, p, a, 0);
    }
    let q = p + a.len();
    if suffix > 255 {
        varint30_read_back(s, q, low32(suffix as nat), version);
    } else {
        holds_index(s, q, b, 0);
    }
    let q2 = q + b.len();
    assert(prev.take(n) + s.subrange(q2, q2 + suffix) =~= name) by {
        assert(s.subrange(q2, q2 + c.len()) =~= c);
        assert(name =~= name.take(n) + name.skip(n));
    }
}

// ---------------------------------------------------------------------------
// Modification time
// ---------------------------------------------------------------------------

/// The bytes of the modification time field.
pub open spec fn mtime_bytes(mtime: i64, same: bool, version: u8) -> Seq<u8> {
    if same {
        Seq::empty()
    } else if version >= 30 {
        varlong_bytes(mtime, 4)
    } else {
        int_bytes(i32_of(u64_of(mtime) % 0x1_0000_0000))
    }
}

/// The modification time at a position.
pub open spec fn mtime_at(s: Seq<u8>, p: int, prev: i64, flags: u32, version: u8) -> Result<
    (i64, int),
    ProtocolErrorView,
> {
    if has_flag(flags, XMIT_SAME_TIME) {
        Ok((prev, p))
    } else if version >= 30 {
        varlong_at(s, p, 4)
    } else {
        match int_at(s, p) {
            Ok((v, q)) => Ok((v as i64, q)),
            Err(e) => Err(e),
        }
    }
}

/// Writes the modification time field. Before protocol 30 the low 32 bits go out.
pub fn encode_mtime(w: &mut Vec<u8>, mtime: i64, same: bool, version: u8)
    ensures
        final(w)@ == old(w)@ + mtime_bytes(mtime, same, version),
{
    if same {
        assert(w@ =~= old(w)@ + mtime_bytes(mtime, same, version));
    } else if version >= 30 {
        write_varlong(w, mtime, 4);
    } else {
        let low: u32 = (as_u64(mtime) % 0x1_0000_0000) as u32;
        write_int(w, as_i32(low));
    }
}

/// Reads the modification time field.
pub fn decode_mtime(r: &mut WireReader, prev: i64, flags: u32, version: u8) -> (res: Result<
    i64,
    ProtocolError,
>)
    requires
        old(r).wf(),
    ensures
        read_as(
            *old(r),
            *final(r),
            mtime_at(old(r).buf@, old(r).pos as int, prev, flags, version),
            res,
        ),
{
    if (flags & XMIT_SAME_TIME) != 0 {
        Ok(prev)
    } else if version >= 30 {
        read_varlong(r, 4)
    } else {
        match read_int(r) {
            Ok(v) => Ok(v as i64),
            Err(e) => Err(e),
        }
    }
}

/// A sent time is read back; before protocol 30 where it fits in 32 bits.
pub proof fn mtime_read_back(
    s: Seq<u8>,
    p: int,
    mtime: i64,
    prev: i64,
    same: bool,
    flags: u32,
    version: u8,
)
    requires
        holds_at(s, p, mtime_bytes(mtime, same, version)),
        has_flag(flags, XMIT_SAME_TIME) == same,
        same ==> mtime == prev,
        version < 30 ==> -0x8000_0000 <= mtime <= 0x7FFF_FFFF,
    ensures
        mtime_at(s, p, prev, flags, version) == Ok::<(i64, int), ProtocolErrorView>(
            (mtime, p + mtime_bytes(mtime, same, version).len()),
        ),
{
    if same {
    } else if version >= 30 {
        varlong_read_back(s, p, mtime, 4);
    } else {
        let v = i32_of(u64_of(mtime) % 0x1_0000_0000);
        assert(v == mtime);
        int_read_back(s, p, v);
    }
}

/// The bytes of the nanoseconds field.
pub open spec fn nsec_bytes(nsec: u32, version: u8) -> Seq<u8> {
    if version >= 31 && nsec != 0 {
        varint_bytes(nsec)
    } else {
        Seq::empty()
    }
}

/// The nanoseconds at a position.
pub open spec fn nsec_at(s: Seq<u8>, p: int, flags: u32, version: u8) -> Result<
    (u32, int),
    ProtocolErrorView,
> {
    if version >= 31 && has_flag(flags, XMIT_MOD_NSEC) {
        varint_at(s, p)
    } else {
        Ok((0, p))
    }
}

/// Writes the nanoseconds field.
pub fn encode_mtime_nsec(w: &mut Vec<u8>, nsec: u32, version: u8)
    ensures
        final(w)@ == old(w)@ + nsec_bytes(nsec, version),
{
    if version >= 31 && nsec != 0 {
        write_varint(w, nsec);
    } else {
        assert(w@ =~= old(w)@ + nsec_bytes(nsec, version));
    }
}

/// Reads the nanoseconds field.
pub fn decode_mtime_nsec(r: &mut WireReader, flags: u32, version: u8) -> (res: Result<
    u32,
    ProtocolError,
>)
    requires
        old(r).wf(),
    ensures
        read_as(*old(r), *final(r), nsec_at(old(r).buf@, old(r).pos as int, flags, version), res),
{
    if version >= 31 && (flags & XMIT_MOD_NSEC) != 0 {
        read_varint(r)
    } else {
        Ok(0)
    }
}

/// Sent nanoseconds are read back; before protocol 31 there are none.
pub proof fn nsec_read_back(s: Seq<u8>, p: int, nsec: u32, flags: u32, version: u8)
    requires
        holds_at(s, p, nsec_bytes(nsec, version)),
        has_flag(flags, XMIT_MOD_NSEC) == (version >= 31 && nsec != 0),
    ensures
        nsec_at(s, p, flags, version) == Ok::<(u32, int), ProtocolErrorView>(
            (
                if version >= 31 {
                    nsec
                } else {
                    0
                },
                p + nsec_bytes(nsec, version).len(),
            ),
        ),
{
    if version >= 31 && nsec != 0 {
        varint_read_back(s, p, nsec);
    }
}

// ---------------------------------------------------------------------------
// Mode
// ---------------------------------------------------------------------------

/// The bytes of the mode field.
pub open spec fn mode_bytes(mode: u32, same: bool) -> Seq<u8> {
    if same {
        Seq::empty()
    } else {
        int_bytes(i32_of(mode as nat))
    }
}

/// The mode at a position.
pub open spec fn mode_at(s: Seq<u8>, p: int, prev: u32, flags: u32) -> Result<
    (u32, int),
    ProtocolErrorView,
> {
    if has_flag(flags, XMIT_SAME_MODE) {
        Ok((prev, p))
    } else {
        match int_at(s, p) {
            Ok((v, q)) => Ok((u32_of(v) as u32, q)),
            Err(e) => Err(e),
        }
    }
}

/// Writes the mode field.
pub fn encode_mode(w: &mut Vec<u8>, mode: u32, same: bool)
    ensures
        final(w)@ == old(w)@ + mode_bytes(mode, same),
{
    if same {
        assert(w@ =~= old(w)@ + mode_bytes(mode, same));
    } else {
        write_int(w, as_i32(mode));
    }
}

/// Reads the mode field.
pub fn decode_mode(r: &mut WireReader, prev: u32, flags: u32) -> (res: Result<u32, ProtocolError>)
    requires
        old(r).wf(),
    ensures
        read_as(*old(r), *final(r), mode_at(old(r).buf@, old(r).pos as int, prev, flags), res),
{
    if (flags & XMIT_SAME_MODE) != 0 {
        Ok(prev)
    } else {
        match read_int(r) {
            Ok(v) => Ok(as_u32(v)),
            Err(e) => Err(e),
        }
    }
}

/// A sent mode is read back.
pub proof fn mode_read_back(s: Seq<u8>, p: int, mode: u32, prev: u32, same: bool, flags: u32)
    requires
        holds_at(s, p, mode_bytes(mode, same)),
        has_flag(flags, XMIT_SAME_MODE) == same,
        same ==> mode == prev,
    ensures
        mode_at(s, p, prev, flags) == Ok::<(u32, int), ProtocolErrorView>(
            (mode, p + mode_bytes(mode, same).len()),
        ),
{
    if !same {
        int_read_back(s, p, i32_of(mode as nat));
    }
}

// ---------------------------------------------------------------------------
// Owner and group
// ---------------------------------------------------------------------------

/// The bytes of an owner or group field.
pub open spec fn owner_bytes(
    sent: bool,
    id: u32,
    name: Seq<u8>,
    follows: bool,
    version: u8,
) -> Seq<u8> {
    if !sent {
        Seq::empty()
    } else if version >= 30 {
        varint_bytes(id) + (if follows {
            seq![(name.len() % 0x100) as u8] + name
        } else {
            Seq::empty()
        })
    } else {
        int_bytes(i32_of(id as nat))
    }
}

/// The number of an owner or group at a position.
pub open spec fn owner_id_at(s: Seq<u8>, p: int, version: u8) -> Result<
    (u32, int),
    ProtocolErrorView,
> {
    if version >= 30 {
        varint_at(s, p)
    } else {
        match int_at(s, p) {
            Ok((v, q)) => Ok((u32_of(v) as u32, q)),
            Err(e) => Err(e),
        }
    }
}

/// The name of an owner or group at a position.
pub open spec fn short_name_at(s: Seq<u8>, p: int) -> Result<(Seq<u8>, int), ProtocolErrorView> {
    match byte_at(s, p) {
        Ok((n, q)) => bytes_at(s, q, n as int),
        Err(e) => Err(e),
    }
}

/// The owner or group field at a position: number, name and position behind.
pub open spec fn owner_at(
    s: Seq<u8>,
    p: int,
    sent: bool,
    follows: bool,
    prev_id: u32,
    prev_name: Seq<u8>,
    version: u8,
) -> Result<(u32, Seq<u8>, int), ProtocolErrorView> {
    if !sent {
        Ok((prev_id, prev_name, p))
    } else {
        match owner_id_at(s, p, version) {
            Err(e) => Err(e),
            Ok((id, q)) => if version >= 30 && follows {
                match short_name_at(s, q) {
                    Ok((name, q2)) => Ok((id, name, q2)),
                    Err(e) => Err(e),
                }
            } else {
                Ok((id, prev_name, q))
            },
        }
    }
}

/// Writes an owner or group field.
pub fn encode_owner(w: &mut Vec<u8>, sent: bool, id: u32, name: &[u8], follows: bool, version: u8)
    ensures
        final(w)@ == old(w)@ + owner_bytes(sent, id, name@, follows, version),
{
    if sent {
        if version >= 30 {
            write_varint(w, id);
            if follows {
                w.push((name.len() % 0x100) as u8);
                write_bytes(w, name);
            }
        } else {
            write_int(w, as_i32(id));
        }
    }
    assert(w@ =~= old(w)@ + owner_bytes(sent, id, name@, follows, version));
}

/// Reads an owner or group field.
pub fn decode_owner(
    r: &mut WireReader,
    sent: bool,
    follows: bool,
    prev_id: u32,
    prev_name: &[u8],
    version: u8,
) -> (res: Result<(u32, Vec<u8>), ProtocolError>)
    requires
        old(r).wf(),
    ensures
        final(r).wf(),
        final(r).buf@ == old(r).buf@,
        match owner_at(
            old(r).buf@,
            old(r).pos as int,
            sent,
            follows,
            prev_id,
            prev_name@,
            version,
        ) {
            Ok((id, name, p)) => res is Ok && res->Ok_0.0 == id && res->Ok_0.1@ == name
                && final(r).pos == p,
            Err(f) => res is Err && res->Err_0@ == f,
        },
{
    if !sent {
        return Ok((prev_id, copy_bytes(prev_name)));
    }
    let id: u32 = if version >= 30 {
        match read_varint(r) {
            Ok(v) => v,
            Err(e) => {
                return Err(e);
            },
        }
    } else {
        match read_int(r) {
            Ok(v) => as_u32(v),
            Err(e) => {
                return Err(e);
            },
        }
    };
    if version >= 30 && follows {
        let n = match read_byte(r) {
            Ok(b) => b,
            Err(e) => {
                return Err(e);
            },
        };
        match read_bytes(r, n as usize) {
            Ok(name) => Ok((id, name)),
            Err(e) => Err(e),
        }
    } else {
        Ok((id, copy_bytes(prev_name)))
    }
}

/// A sent owner is read back, and its name where the name went along.
pub proof fn owner_read_back(
    s: Seq<u8>,
    p: int,
    sent: bool,
    follows: bool,
    id: u32,
    name: Seq<u8>,
    prev_id: u32,
    prev_name: Seq<u8>,
    version: u8,
)
    requires
        holds_at(s, p, owner_bytes(sent, id, name, follows, version)),
        follows ==> name.len() <= 255,
    ensures
        owner_at(s, p, sent, follows, prev_id, prev_name, version) == Ok::<
            (u32, Seq<u8>, int),
            ProtocolErrorView,
        >(
            (
                if sent {
                    id
                } else {
                    prev_id
                },
                if sent && version >= 30 && follows {
                    name
                } else {
                    prev_name
                },
                p + owner_bytes(sent, id, name, follows, version).len(),
            ),
        ),
{
    if sent {
        if version >= 30 {
            let tail: Seq<u8> = if follows {
                seq![(name.len() % 0x100) as u8] + name
            } else {
                Seq::empty()
            };
            holds_split(s, p, varint_bytes(id), tail);
            varint_read_back(s, p, id);
            if follows {
                let q = p + varint_bytes(id).len();
                holds_split(s, q, seq![(name.len() % 0x100) as u8], name);
                holds_index(s, q, seq![(name.len() % 0x100) as u8], 0);
            }
        } else {
            int_read_back(s, p, i32_of(id as nat));
        }
    }
}

// ---------------------------------------------------------------------------
// Device numbers
// ---------------------------------------------------------------------------

/// Whether the device number is sent for a file mode.
pub open spec fn sends_rdev(mode: u32, opts: FileListOptions) -> bool {
    let ft = file_type(mode);
    ||| opts.preserve_devices && (ft == S_IFBLK || ft == S_IFCHR)
    ||| opts.preserve_specials && (ft == S_IFIFO || ft == S_IFSOCK) && opts.protocol_version < 31
}

/// Determine if rdev should be sent for this file mode.
pub fn should_send_rdev(mode: u32, opts: &FileListOptions) -> (r: bool)
    ensures
        r == sends_rdev(mode, *opts),
{
    let ft = mode & S_IFMT;
    let is_device = ft == S_IFBLK || ft == S_IFCHR;
    let is_special = ft == S_IFIFO || ft == S_IFSOCK;
    if opts.preserve_devices && is_device {
        return true;
    }
    if opts.preserve_specials && is_special && opts.protocol_version < 31 {
        return true;
    }
    false
}

/// The device number of a major and a minor number.
pub open spec fn join_rdev(major: u32, minor: u32) -> u64 {
    ((major as u64) << 8) | (minor as u64)
}

/// The bytes of the device number field.
pub open spec fn rdev_bytes(
    sent: bool,
    rdev: u64,
    same: bool,
    same_major: bool,
    version: u8,
) -> Seq<u8> {
    if !sent {
        Seq::empty()
    } else if version < 28 {
        if same {
            Seq::empty()
        } else {
            int_bytes(i32_of((rdev % 0x1_0000_0000) as nat))
        }
    } else {
        (if same_major {
            Seq::empty()
        } else {
            varint30_bytes(rdev_major_of(rdev), version)
        }) + (if version >= 30 {
            varint_bytes(rdev_minor_of(rdev))
        } else {
            int_bytes(rdev_minor_of(rdev) as i32)
        })
    }
}

/// The minor number at a position.
pub open spec fn minor_at(s: Seq<u8>, p: int, flags: u32, version: u8) -> Result<
    (u32, int),
    ProtocolErrorView,
> {
    if version >= 30 {
        varint_at(s, p)
    } else if has_flag(flags, XMIT_RDEV_MINOR_8_PRE30) {
        match byte_at(s, p) {
            Ok((b, q)) => Ok((b as u32, q)),
            Err(e) => Err(e),
        }
    } else {
        match int_at(s, p) {
            Ok((v, q)) => Ok((u32_of(v) as u32, q)),
            Err(e) => Err(e),
        }
    }
}

/// The device number at a position.
pub open spec fn rdev_at(
    s: Seq<u8>,
    p: int,
    sent: bool,
    flags: u32,
    prev_rdev: u64,
    prev_major: u32,
    version: u8,
) -> Result<(u64, int), ProtocolErrorView> {
    if !sent {
        Ok((0, p))
    } else if version < 28 {
        if has_flag(flags, XMIT_SAME_RDEV_PRE28) {
            Ok((prev_rdev, p))
        } else {
            match int_at(s, p) {
                Ok((v, q)) => Ok((u64_of(v as i64) as u64, q)),
                Err(e) => Err(e),
            }
        }
    } else {
        let major = if has_flag(flags, XMIT_SAME_RDEV_MAJOR) {
            Ok((prev_major, p))
        } else {
            varint30_at(s, p, version)
        };
        match major {
            Err(e) => Err(e),
            Ok((maj, q)) => match minor_at(s, q, flags, version) {
                Err(e) => Err(e),
                Ok((min, q2)) => Ok((join_rdev(maj, min), q2)),
            },
        }
    }
}

/// Writes the device number field.
pub fn encode_rdev(
    w: &mut Vec<u8>,
    sent: bool,
    rdev: u64,
    same: bool,
    same_major: bool,
    version: u8,
)
    ensures
        final(w)@ == old(w)@ + rdev_bytes(sent, rdev, same, same_major, version),
{
    if sent {
        if version < 28 {
            if !same {
                write_int(w, as_i32((rdev % 0x1_0000_0000) as u32));
            }
        } else {
            if !same_major {
                write_varint30(w, ((rdev / 256) % 0x1_0000_0000) as u32, version);
            }
            let minor: u32 = (rdev % 256) as u32;
            if version >= 30 {
                write_varint(w, minor);
            } else {
                write_int(w, minor as i32);
            }
        }
    }
    assert(w@ =~= old(w)@ + rdev_bytes(sent, rdev, same, same_major, version));
}

/// Reads the device number field.
pub fn decode_rdev(
    r: &mut WireReader,
    sent: bool,
    flags: u32,
    prev_rdev: u64,
    prev_major: u32,
    version: u8,
) -> (res: Result<u64, ProtocolError>)
    requires
        old(r).wf(),
    ensures
        read_as(
            *old(r),
            *final(r),
            rdev_at(
                old(r).buf@,
                old(r).pos as int,
                sent,
                flags,
                prev_rdev,
                prev_major,
                version,
            ),
            res,
        ),
{
    if !sent {
        return Ok(0);
    }
    if version < 28 {
        if (flags & XMIT_SAME_RDEV_PRE28) != 0 {
            return Ok(prev_rdev);
        }
        return match read_int(r) {
            Ok(v) => Ok(as_u64(v as i64)),
            Err(e) => Err(e),
        };
    }
    let major: u32 = if (flags & XMIT_SAME_RDEV_MAJOR) != 0 {
        prev_major
    } else {
        match read_varint30(r, version) {
            Ok(v) => v,
            Err(e) => {
                return Err(e);
            },
        }
    };
    let minor: u32 = if version >= 30 {
        match read_varint(r) {
            Ok(v) => v,
            Err(e) => {
                return Err(e);
            },
        }
    } else if (flags & XMIT_RDEV_MINOR_8_PRE30) != 0 {
        match read_byte(r) {
            Ok(b) => b as u32,
            Err(e) => {
                return Err(e);
            },
        }
    } else {
        match read_int(r) {
            Ok(v) => as_u32(v),
            Err(e) => {
                return Err(e);
            },
        }
    };
    Ok(((major as u64) << 8) | (minor as u64))
}

/// The device number that a reader gets: the number itself where it fits the
/// wire form and both sides remember the same.
pub open spec fn rdev_fits(rdev: u64, version: u8) -> bool {
    if version < 28 {
        rdev < 0x8000_0000
    } else {
        rdev < 0x100_0000_0000
    }
}

/// A sent device number is read back.
pub proof fn rdev_read_back(
    s: Seq<u8>,
    p: int,
    sent: bool,
    rdev: u64,
    same: bool,
    same_major: bool,
    flags: u32,
    prev_rdev: u64,
    prev_major: u32,
    version: u8,
)
    requires
        holds_at(s, p, rdev_bytes(sent, rdev, same, same_major, version)),
        sent ==> rdev_fits(rdev, version),
        sent && version < 28 ==> has_flag(flags, XMIT_SAME_RDEV_PRE28) == same,
        sent && version < 28 && same ==> rdev == prev_rdev,
        sent && version >= 28 ==> has_flag(flags, XMIT_SAME_RDEV_MAJOR) == same_major,
        sent && version >= 28 && same_major ==> rdev_major_of(rdev) == prev_major,
        sent && 28 <= version < 30 ==> !has_flag(flags, XMIT_RDEV_MINOR_8_PRE30),
    ensures
        rdev_at(s, p, sent, flags, prev_rdev, prev_major, version) == Ok::<
            (u64, int),
            ProtocolErrorView,
        >(
            (
                if sent {
                    rdev
                } else {
                    0
                },
                p + rdev_bytes(sent, rdev, same, same_major, version).len(),
            ),
        ),
{
    if !sent {
    } else if version < 28 {
        if !same {
            int_read_back(s, p, i32_of((rdev % 0x1_0000_0000) as nat));
        }
    } else {
        let major = rdev_major_of(rdev);
        let minor = rdev_minor_of(rdev);
        let a: Seq<u8> = if same_major {
            Seq::empty()
        } else {
            varint30_bytes(major, version)
        };
        let b: Seq<u8> = if version >= 30 {
            varint_bytes(minor)
        } else {
            int_bytes(minor as i32)
        };
        holds_split(s, p, a, b);
        if !same_major {
            varint30_read_back(s, p, major, version);
        }
        if version >= 30 {
            varint_read_back(s, p + a.len(), minor);
        } else {
            int_read_back(s, p + a.len(), minor as i32);
        }
        assert(minor < 256 ==> ((major as u64) << 8u64) | (minor as u64) == (major as u64) * 256
            + minor) by (bit_vector);
        assert(join_rdev(major, minor) == rdev);
    }
}

// ---------------------------------------------------------------------------
// Symlink target
// ---------------------------------------------------------------------------

/// Whether the link target is sent for a file mode.
pub open spec fn sends_link(mode: u32, opts: FileListOptions) -> bool {
    file_type(mode) == WIRE_S_IFLNK && opts.preserve_links
}

/// The bytes of the link target field.
pub open spec fn link_bytes(sent: bool, target: Seq<u8>, version: u8) -> Seq<u8> {
    if sent {
        varint30_bytes(low32(target.len()), version) + target
    } else {
        Seq::empty()
    }
}

/// The link target at a position.
pub open spec fn link_at(s: Seq<u8>, p: int, sent: bool, version: u8) -> Result<
    (Seq<u8>, int),
    ProtocolErrorView,
> {
    if !sent {
        Ok((Seq::empty(), p))
    } else {
        match varint30_at(s, p, version) {
            Err(e) => Err(e),
            Ok((n, q)) => if n > MAX_NAME_LEN {
                Err(
                    ProtocolErrorView::WireValueOutOfRange {
                        field: "symlink_target_len"@,
                        value: n as i64,
                        max: MAX_NAME_LEN as i64,
                    },
                )
            } else {
                bytes_at(s, q, n as int)
            },
        }
    }
}

/// Writes the link target field.
pub fn encode_symlink(w: &mut Vec<u8>, sent: bool, target: &[u8], version: u8)
    ensures
        final(w)@ == old(w)@ + link_bytes(sent, target@, version),
{
    if sent {
        write_varint30(w, take_low32(target.len()), version);
        write_bytes(w, target);
    }
    assert(w@ =~= old(w)@ + link_bytes(sent, target@, version));
}

/// Reads the link target field.
pub fn decode_symlink(r: &mut WireReader, sent: bool, version: u8) -> (res: Result<
    Vec<u8>,
    ProtocolError,
>)
    requires
        old(r).wf(),
    ensures
        read_as_bytes(
            *old(r),
            *final(r),
            link_at(old(r).buf@, old(r).pos as int, sent, version),
            res,
        ),
{
    if !sent {
        return Ok(Vec::new());
    }
    let n = match read_varint30(r, version) {
        Ok(v) => v,
        Err(e) => {
            return Err(e);
        },
    };
    if n as u64 > MAX_NAME_LEN {
        return Err(
            ProtocolError::WireValueOutOfRange {
                field: "symlink_target_len",
                value: n as i64,
                max: MAX_NAME_LEN as i64,
            },
        );
    }
    read_bytes(r, n as usize)
}

/// A sent link target is read back.
pub proof fn link_read_back(s: Seq<u8>, p: int, sent: bool, target: Seq<u8>, version: u8)
    requires
        holds_at(s, p, link_bytes(sent, target, version)),
        sent ==> target.len() <= MAX_NAME_LEN,
    ensures
        link_at(s, p, sent, version) == Ok::<(Seq<u8>, int), ProtocolErrorView>(
            (
                if sent {
                    target
                } else {
                    Seq::empty()
                },
                p + link_bytes(sent, target, version).len(),
            ),
        ),
{
    if sent {
        holds_split(s, p, varint30_bytes(low32(target.len()), version), target);
        varint30_read_back(s, p, low32(target.len()), version);
    }
}

// ---------------------------------------------------------------------------
// Checksum
// ---------------------------------------------------------------------------

/// Whether the file checksum is sent for a file mode.
pub open spec fn sends_checksum(mode: u32, opts: FileListOptions) -> bool {
    opts.always_checksum && (file_type(mode) == S_IFREG || opts.protocol_version < 28)
}

/// A checksum cut or padded with zeros to a length.
pub open spec fn fitted(sum: Seq<u8>, len: nat) -> Seq<u8> {
    if sum.len() >= len {
        sum.take(len as int)
    } else {
        sum + Seq::new((len - sum.len()) as nat, |i: int| 0u8)
    }
}

/// The bytes of the checksum field.
pub open spec fn checksum_bytes(sent: bool, sum: Seq<u8>, len: nat) -> Seq<u8> {
    if sent {
        fitted(sum, len)
    } else {
        Seq::empty()
    }
}

/// The checksum at a position.
pub open spec fn checksum_at(s: Seq<u8>, p: int, sent: bool, len: nat) -> Result<
    (Seq<u8>, int),
    ProtocolErrorView,
> {
    if sent {
        bytes_at(s, p, len as int)
    } else {
        Ok((Seq::empty(), p))
    }
}

/// Writes the checksum field.
pub fn encode_checksum(w: &mut Vec<u8>, sent: bool, sum: &[u8], len: usize)
    ensures
        final(w)@ == old(w)@ + checksum_bytes(sent, sum@, len as nat),
{
    if sent {
        if sum.len() >= len {
            let part = vstd::slice::slice_subrange(sum, 0, len);
            assert(part@ =~= sum@.take(len as int));
            write_bytes(w, part);
        } else {
            write_bytes(w, sum);
            let mut i: usize = sum.len();
            while i < len
                invariant
                    sum.len() <= i <= len,
                    w@ == old(w)@ + (sum@ + Seq::new((i - sum.len()) as nat, |j: int| 0u8)),
                decreases len - i,
            {
                let ghost before = w@;
                w.push(0);
                i += 1;
                assert(w@ =~= old(w)@ + (sum@ + Seq::new((i - sum.len()) as nat, |j: int| 0u8)));
            }
        }
    } else {
        assert(w@ =~= old(w)@ + checksum_bytes(sent, sum@, len as nat));
    }
}

/// Reads the checksum field.
pub fn decode_checksum(r: &mut WireReader, sent: bool, len: usize) -> (res: Result<
    Vec<u8>,
    ProtocolError,
>)
    requires
        old(r).wf(),
    ensures
        read_as_bytes(
            *old(r),
            *final(r),
            checksum_at(old(r).buf@, old(r).pos as int, sent, len as nat),
            res,
        ),
{
    if sent {
        read_bytes(r, len)
    } else {
        Ok(Vec::new())
    }
}

/// A sent checksum is read back, at the length that was sent.
pub proof fn checksum_read_back(s: Seq<u8>, p: int, sent: bool, sum: Seq<u8>, len: nat)
    requires
        holds_at(s, p, checksum_bytes(sent, sum, len)),
    ensures
        checksum_at(s, p, sent, len) == Ok::<(Seq<u8>, int), ProtocolErrorView>(
            (
                if sent {
                    fitted(sum, len)
                } else {
                    Seq::empty()
                },
                p + checksum_bytes(sent, sum, len).len(),
            ),
        ),
{
}

} // verus!
