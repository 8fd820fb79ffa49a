use ferrosync_core::error::{
    FerrosyncError, FilterError, FsError, IoErrorKind, IoFailure, ProtocolError, TransportError,
};
use ferrosync_core::protocol::handshake::{build_capability_string, ChecksumType};
use ferrosync_core::protocol::sum::{
    block_length_or, read_sum_head, write_sum_head, SumHead, DEFAULT_BLOCK_LENGTH,
};
use ferrosync_core::protocol::varint::{
    read_int, read_ndx, read_varint, read_varint30, read_varlong, read_varlong30, write_int,
    write_ndx, write_varint, write_varint30, write_varlong, write_varlong30, NdxState, NDX_DONE,
};
use ferrosync_core::protocol::wire::{read_byte, read_bytes, WireReader};
use ferrosync_core::text::{decimal_string, hex_string, signed_decimal_string};

fn varint(v: u32) -> Vec<u8> {
    let mut w = Vec::new();
    write_varint(&mut w, v);
    w
}

#[test]
fn varints_have_their_bytes() {
    assert_eq!(varint(0), vec![0x00]);
    assert_eq!(varint(0x7f), vec![0x7f]);
    assert_eq!(varint(0x80), vec![0x80, 0x80]);
    assert_eq!(varint(300), vec![0x81, 0x2c]);
    assert_eq!(varint(0x3fff), vec![0xbf, 0xff]);
    assert_eq!(varint(0x4000), vec![0xc0, 0x00, 0x40]);
    assert_eq!(varint(0xffff_ffff), vec![0xf0, 0xff, 0xff, 0xff, 0xff]);
}

#[test]
fn varints_are_read_back() {
    for v in [0u32, 1, 127, 128, 16383, 16384, 0x1f_ffff, 0x20_0000, 0x0fff_ffff, u32::MAX] {
        let w = varint(v);
        let mut r = WireReader::new(&w);
        assert_eq!(read_varint(&mut r).unwrap(), v);
        assert_eq!(r.remaining(), 0);
        for version in [27u8, 31] {
            if version < 30 && v > i32::MAX as u32 {
                continue;
            }
            let mut w = Vec::new();
            write_varint30(&mut w, v, version);
            let mut r = WireReader::new(&w);
            assert_eq!(read_varint30(&mut r, version).unwrap(), v);
        }
    }
}

#[test]
fn long_numbers_are_read_back() {
    for v in [0i64, 1, 255, 65535, 1 << 31, 1 << 40, i64::MAX] {
        for min in [3usize, 4] {
            let mut w = Vec::new();
            write_varlong(&mut w, v, min);
            let mut r = WireReader::new(&w);
            assert_eq!(read_varlong(&mut r, min).unwrap(), v);
            assert_eq!(r.remaining(), 0);
            for version in [29u8, 30] {
                let mut w = Vec::new();
                write_varlong30(&mut w, v, min, version);
                let mut r = WireReader::new(&w);
                assert_eq!(read_varlong30(&mut r, min, version).unwrap(), v);
            }
        }
    }
}

#[test]
fn an_overlong_varint_is_refused() {
    let mut r = WireReader::new(&[0xff, 1, 2, 3, 4, 5, 6, 7, 8]);
    assert!(matches!(read_varint(&mut r), Err(ProtocolError::InvalidVarint)));
}

#[test]
fn a_stream_that_ends_early_is_an_error() {
    let mut r = WireReader::new(&[1, 2]);
    match read_int(&mut r) {
        Err(ProtocolError::Io(e)) => assert_eq!(e.kind, IoErrorKind::UnexpectedEof),
        _ => panic!("expected the end of the stream"),
    }
    let mut r = WireReader::new(&[]);
    assert!(read_byte(&mut r).is_err());
    let mut r = WireReader::new(&[7, 8, 9]);
    assert_eq!(read_bytes(&mut r, 2).unwrap(), vec![7, 8]);
    assert_eq!(r.remaining(), 1);
}

#[test]
fn integers_are_little_endian() {
    let mut w = Vec::new();
    write_int(&mut w, -2);
    assert_eq!(w, vec![0xfe, 0xff, 0xff, 0xff]);
    assert_eq!(read_int(&mut WireReader::new(&w)).unwrap(), -2);
}

#[test]
fn indices_are_read_back_in_turn() {
    let sent = [0i32, 1, 2, 500, 3, -101, 40000, NDX_DONE, 40001, -2, i32::MAX, NDX_DONE];
    for version in [28u8, 31] {
        let mut w = Vec::new();
        let mut st = NdxState::default();
        for n in sent {
            write_ndx(&mut w, n, &mut st, version);
        }
        let mut r = WireReader::new(&w);
        let mut st = NdxState::default();
        for n in sent {
            assert_eq!(read_ndx(&mut r, &mut st, version).unwrap(), n);
        }
        assert_eq!(r.remaining(), 0);
    }
    // The next index in order takes one byte.
    let mut w = Vec::new();
    let mut st = NdxState::default();
    write_ndx(&mut w, 0, &mut st, 31);
    write_ndx(&mut w, 1, &mut st, 31);
    write_ndx(&mut w, NDX_DONE, &mut st, 31);
    assert_eq!(w, vec![1, 1, 0]);
}

#[test]
fn sum_heads_are_read_back() {
    let head = SumHead { count: 3, blength: 700, s2length: 16, remainder: 100 };
    let mut w = Vec::new();
    write_sum_head(&mut w, &head);
    assert_eq!(w.len(), 16);
    assert_eq!(w[..8], [3, 0, 0, 0, 0xbc, 2, 0, 0]);
    let mut r = WireReader::new(&w);
    assert_eq!(read_sum_head(&mut r).unwrap(), head);
    assert_eq!(block_length_or(&head, DEFAULT_BLOCK_LENGTH), 700);
    let none = SumHead { count: 0, blength: 0, s2length: 0, remainder: 0 };
    assert_eq!(block_length_or(&none, 5), 5);
    assert!(read_sum_head(&mut WireReader::new(&w[..15])).is_err());
}

#[test]
fn capabilities_are_listed() {
    let with = build_capability_string(true, true, true);
    let without = build_capability_string(false, false, false);
    assert!(with.contains('i'));
    assert!(!without.contains('i'));
    assert!(with.len() > without.len());
    assert_eq!(ChecksumType::Absent.digest_len(), 0);
    assert_eq!(ChecksumType::Md5.digest_len(), 16);
}

#[test]
fn numerals_are_written() {
    assert_eq!(decimal_string(0), "0");
    assert_eq!(decimal_string(u64::MAX), "18446744073709551615");
    assert_eq!(signed_decimal_string(i64::MIN), "-9223372036854775808");
    assert_eq!(hex_string(&[0x00, 0xab, 0x10]), "00ab10");
}

#[test]
fn errors_say_what_happened() {
    let io = |m: &str| IoFailure::new(IoErrorKind::Other, m);
    let protocol: Vec<(ProtocolError, &str)> = vec![
        (
            ProtocolError::UnsupportedVersion { version: 19, min: 20, max: 32 },
            "unsupported protocol version 19 (supported: 20..=32)",
        ),
        (
            ProtocolError::NegotiationFailed { local: 31, remote: 10 },
            "protocol version negotiation failed: local=31, remote=10",
        ),
        (ProtocolError::InvalidMplexTag { tag: 0xff }, "invalid multiplex tag 0xff"),
        (
            ProtocolError::FrameTooLarge { size: 20, max: 10 },
            "multiplex frame too large: 20 bytes (max 10)",
        ),
        (ProtocolError::UnexpectedMessageType { msg_type: 9 }, "unexpected message type: 9"),
        (ProtocolError::InvalidVarint, "invalid varint encoding"),
        (
            ProtocolError::WireValueOutOfRange { field: "len", value: -1, max: 5 },
            "wire value out of range: len = -1 (max 5)",
        ),
        (
            ProtocolError::ChecksumMismatch { expected: "aa".into(), actual: "bb".into() },
            "checksum mismatch: expected aa, got bb",
        ),
    ];
    for (e, text) in protocol {
        assert_eq!(e.message(), text);
    }
    let fs: Vec<(FsError, &str)> = vec![
        (FsError::NotFound { path: b"/a".to_vec() }, "path not found: /a"),
        // What is not text in a path is replaced.
        (FsError::NotFound { path: b"/\xff".to_vec() }, "path not found: /\u{fffd}"),
    ];
    for (e, text) in fs {
        assert_eq!(e.message(), text);
    }
    assert_eq!(
        TransportError::RemoteExit { code: -3 }.message(),
        "remote process exited with code -3"
    );
    assert_eq!(
        TransportError::HostKeyNotFound { host: "h".into() }.message(),
        "host key not found for h (strict mode)"
    );
    assert_eq!(TransportError::from(io("gone")).message(), "transport I/O error: gone");
    assert!(matches!(ProtocolError::from(io("gone")), ProtocolError::Io(_)));
    assert_eq!(
        FilterError::InvalidRule { rule: "x".into() }.message(),
        "invalid filter rule: x"
    );
    let inner = FsError::NotFound { path: b"/a".to_vec() };
    let said = inner.message();
    assert!(FerrosyncError::Fs(inner).message().contains(&said));
}
