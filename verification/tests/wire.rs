//! The two sides of a transfer, talking through byte buffers.

use std::collections::HashMap;

use ferrosync_core::engine::generator::{send_file_signatures, send_generator_done};
use ferrosync_core::engine::progress::{ProgressEvent, ProgressTracker};
use ferrosync_core::engine::receiver::{
    apply_tokens, can_apply, hex_encode, recv_file_index, verify_file, Token,
};
use ferrosync_core::engine::receiver_engine::{EntryAction, HandledKind};
use ferrosync_core::engine::sender::{send_file_delta, send_sender_done};
use ferrosync_core::engine::wire_receiver::{
    ask_for_file, generate_step, read_response, receive_mode, tell_receiver, GeneratorItem, ReceiveMode,
    ReceiverLoop,
};
use ferrosync_core::engine::wire_sender::{
    read_item_flags, read_request, Request, SenderAction, SenderLoop, ITEM_TRANSFER,
};
use ferrosync_core::engine::wire_transfer::{
    build_ndx_map, done_marker, read_stats, receiver_goodbye, receiver_phase_exchange,
    sender_goodbye, server_receiver_goodbye, server_receiver_phase_exchange,
    server_sender_goodbye, write_stats, FileReader, LocalFileReader, ModuleFileReader, Turn,
    WireError, WireFormat,
};
use ferrosync_core::error::{FerrosyncError, FsError, IoErrorKind, IoFailure, ProtocolError};
use ferrosync_core::filelist::entry::{FileEntry, S_IFDIR, S_IFREG};
use ferrosync_core::protocol::handshake::{ChecksumType, NegotiatedProtocol, INC_RECURSE};
use ferrosync_core::protocol::sum::{read_sum_head, SumHead};
use ferrosync_core::protocol::varint::{read_int, write_ndx, NdxState, NDX_DONE};
use ferrosync_core::protocol::wire::WireReader;
use ferrosync_core::stats::TransferStats;

fn wire(version: u8) -> WireFormat {
    WireFormat { version, phase_count: 1, incremental: false }
}

fn entry(name: &str, mode: u32, len: i64) -> FileEntry {
    FileEntry { name: name.as_bytes().to_vec(), mode, len, ..Default::default() }
}

fn head() -> SumHead {
    SumHead { count: 2, blength: 700, s2length: 16, remainder: 10 }
}

fn counts(turns: &[Turn]) -> (usize, usize) {
    let sent = turns.iter().filter(|t| **t == Turn::Send).count();
    (sent, turns.len() - sent)
}

#[test]
fn test_recv_done_signal() {
    let mut buf = Vec::new();
    send_sender_done(&mut buf);
    let mut r = WireReader::new(&buf);
    assert!(recv_file_index(&mut r).unwrap().is_none());
    let mut buf = Vec::new();
    send_generator_done(&mut buf);
    assert_eq!(read_int(&mut WireReader::new(&buf)).unwrap(), NDX_DONE);
}

#[test]
fn test_checksum_verification_failure() {
    let result = verify_file(b"data".to_vec(), &[0xff; 16], &[0x00; 16]);
    match result {
        Err(ProtocolError::ChecksumMismatch { expected, actual }) => {
            assert_eq!(expected, "ff".repeat(16));
            assert_eq!(actual, "00".repeat(16));
        }
        _ => panic!("expected a mismatch"),
    }
    assert_eq!(verify_file(b"data".to_vec(), &[7; 16], &[7; 16]).unwrap(), b"data");
}

#[test]
fn deltas_rebuild_files() {
    let basis = b"aaaabbbbcc";
    let all = [Token::BlockMatch(0), Token::BlockMatch(1), Token::BlockMatch(2), Token::EndOfFile];
    assert_eq!(apply_tokens(&all, basis, 4), basis);
    let mixed = [
        Token::Data(b"x".to_vec()),
        Token::BlockMatch(2),
        Token::Data(b"y".to_vec()),
        Token::EndOfFile,
    ];
    assert_eq!(apply_tokens(&mixed, basis, 4), b"xccy");
    assert!(can_apply(&mixed, 4));
    assert!(!can_apply(&[Token::BlockMatch(-1)], 4));
    assert!(!can_apply(&[Token::BlockMatch(1)], usize::MAX));
    assert_eq!(hex_encode(&[0x0f, 0xa0]), "0fa0");
}

#[test]
fn signatures_and_deltas_are_framed() {
    let mut w = Vec::new();
    send_file_signatures(&mut w, 7, &head(), b"BLOCKS");
    let mut r = WireReader::new(&w);
    assert_eq!(read_int(&mut r).unwrap(), 7);
    assert_eq!(read_sum_head(&mut r).unwrap(), head());
    assert_eq!(&w[20..], b"BLOCKS");
    let mut w = Vec::new();
    send_file_delta(&mut w, 7, b"TOKENS", b"SUM");
    let mut r = WireReader::new(&w);
    assert_eq!(recv_file_index(&mut r).unwrap(), Some(7));
    assert_eq!(&w[4..], b"TOKENSSUM");
}

#[test]
fn requests_are_read_back() {
    for version in [28u8, 31] {
        let format = wire(version);
        let mut w = Vec::new();
        let mut st = NdxState::default();
        assert_eq!(ask_for_file(&mut w, 3, &head(), b"SUMS", false, &mut st, &format), 700);
        ask_for_file(&mut w, 9, &head(), b"SUMS", true, &mut st, &format);
        write_ndx(&mut w, NDX_DONE, &mut st, version);
        let mut r = WireReader::new(&w);
        let mut st = NdxState::default();
        match read_request(&mut r, &mut st, &format).unwrap() {
            Request::File { ndx, flags } => {
                assert_eq!(ndx, 3);
                // Before version 29 no flags are sent.
                assert_eq!(flags, if version < 29 { 0 } else { ITEM_TRANSFER });
            }
            _ => panic!("expected a file"),
        }
        assert_eq!(read_sum_head(&mut r).unwrap(), head());
        assert_eq!(w[r.pos..r.pos + 4], *b"SUMS");
        r.pos += 4;
        assert!(matches!(
            read_request(&mut r, &mut st, &format).unwrap(),
            Request::File { ndx: 9, .. }
        ));
        read_sum_head(&mut r).unwrap();
        // Nothing stands behind the head where data is appended.
        assert!(matches!(read_request(&mut r, &mut st, &format).unwrap(), Request::Done));
    }
}

#[test]
fn item_flags_announce_what_follows() {
    let mut r = WireReader::new(&[0x00, 0x98, 0x05, 0x02, b'a', b'b', 0x77]);
    assert_eq!(read_item_flags(&mut r).unwrap(), 0x9800);
    assert_eq!(r.remaining(), 1);
    let mut r = WireReader::new(&[0x00, 0x90, 0xff, 0xff, 0xff, 0xff, 0x0f]);
    assert!(read_item_flags(&mut r).is_err());
}

#[test]
fn a_sender_answers_requests() {
    let entries = vec![entry("a", S_IFREG, 100), entry("d", S_IFDIR, 0)];
    let map: HashMap<i32, usize> = HashMap::from([(0, 0), (1, 1)]);
    let format = wire(31);
    let mut s = SenderLoop::new(
        &entries,
        &map,
        format,
        false,
        TransferStats::new(),
        ProgressTracker::with_callback(),
    );
    let mut w = Vec::new();
    let mut st = NdxState::default();
    ask_for_file(&mut w, 0, &head(), b"", true, &mut st, &format);
    write_ndx(&mut w, NDX_DONE, &mut st, 31);
    write_ndx(&mut w, NDX_DONE, &mut st, 31);
    let mut r = WireReader::new(&w);
    match s.step(&mut r).unwrap() {
        SenderAction::Send { entry, ndx, flags } => {
            assert_eq!((entry, ndx, flags), (0, 0, ITEM_TRANSFER));
        }
        _ => panic!("expected to send"),
    }
    assert!(!s.streams(0));
    let asked = read_sum_head(&mut r).unwrap();
    let answer = s.announce(0, 0, ITEM_TRANSFER, &asked);
    let mut back = WireReader::new(&answer);
    assert_eq!(read_response(&mut back, &mut NdxState::default(), &format).unwrap(), head());
    assert_eq!(back.remaining(), 0);
    s.file_sent(0, 0, 30, 70);
    // Each phase is answered; the last ends the loop.
    match s.step(&mut r).unwrap() {
        SenderAction::Reply { reply } => assert_eq!(reply, done_marker(31)),
        _ => panic!("expected a reply"),
    }
    match s.step(&mut r).unwrap() {
        SenderAction::Finished { reply } => assert_eq!(reply, done_marker(31)),
        _ => panic!("expected the end"),
    }
    let stats = s.stats();
    assert_eq!(stats.files_transferred, 1);
    assert_eq!(stats.total_size, 100);
    assert_eq!(stats.literal_data, 30);
    assert_eq!(stats.matched_data, 70);
    let events = s.take_events();
    assert!(matches!(events[0], ProgressEvent::FileStart { .. }));
    assert!(matches!(events[1], ProgressEvent::FileComplete { literal_bytes: 30, .. }));
    assert!(s.step(&mut r).is_err());
}

#[test]
fn a_dry_run_only_counts() {
    let entries = vec![entry("a", S_IFREG, 100)];
    let map: HashMap<i32, usize> = HashMap::from([(0, 0)]);
    let format = wire(31);
    let mut s = SenderLoop::new(
        &entries,
        &map,
        format,
        true,
        TransferStats::new(),
        ProgressTracker::new(),
    );
    let action = s.answer(Request::File { ndx: 0, flags: ITEM_TRANSFER }, NdxState::default());
    assert!(matches!(action, SenderAction::Counted));
    assert_eq!(s.stats().files_transferred, 1);
    assert_eq!(s.stats().total_size, 100);
}

#[test]
fn a_receiver_counts_what_it_takes() {
    let entries = vec![entry("d", S_IFDIR, 0), entry("a", S_IFREG, 100), entry("b", S_IFREG, 5)];
    let mut l = ReceiverLoop::new(
        &entries,
        wire(31),
        TransferStats::new(),
        ProgressTracker::with_callback(),
    );
    l.take(GeneratorItem::Handled { entry_idx: 0, kind: HandledKind::Directory });
    l.take(GeneratorItem::Transfer { entry_idx: 1, blength: 700 });
    l.file_received(1, 100);
    l.take(GeneratorItem::DeferredHardlink { entry_idx: 2, source_name: b"a".to_vec() });
    assert_eq!(l.deferred(), vec![(b"b".to_vec(), b"a".to_vec())]);
    l.links_made(&[false, true]);
    l.take(GeneratorItem::Done);
    let stats = l.stats();
    assert_eq!(stats.directories_created, 1);
    assert_eq!(stats.files_transferred, 2);
    assert_eq!(stats.total_size, 100);
    assert_eq!(stats.literal_data, 100);
    assert!(l
        .take_events()
        .iter()
        .any(|e| matches!(e, ProgressEvent::FileComplete { index: 1, literal_bytes: 100, .. })));
    let item = tell_receiver(4, &EntryAction::NeedsTransfer { basis: Vec::new() }, 700);
    assert!(matches!(item, Some(GeneratorItem::Transfer { entry_idx: 4, blength: 700 })));
    assert_eq!(receive_mode(true, true), ReceiveMode::Buffered);
    assert_eq!(receive_mode(false, true), ReceiveMode::StreamCompressed);
    assert_eq!(receive_mode(false, false), ReceiveMode::Stream);
}

#[test]
fn goodbyes_fit_together() {
    for version in [28u8, 30, 31] {
        let w = wire(version);
        let (client_sends, client_awaits) = counts(&sender_goodbye(&w));
        let (server_sends, server_awaits) = counts(&server_receiver_goodbye(&w));
        assert!(client_awaits <= server_sends && server_awaits <= client_sends);
        let (client_sends, client_awaits) = counts(&receiver_goodbye(&w));
        let (server_sends, server_awaits) = counts(&server_sender_goodbye(&w));
        assert!(client_awaits <= server_sends && server_awaits <= client_sends);
    }
    assert_eq!(sender_goodbye(&wire(30)), vec![Turn::Await]);
    assert_eq!(sender_goodbye(&wire(31)), vec![Turn::Await, Turn::Send, Turn::Await]);
}

#[test]
fn phases_are_rounds() {
    assert_eq!(counts(&receiver_phase_exchange(&wire(31), 3)), (2, 2));
    let incremental = WireFormat { incremental: true, ..wire(31) };
    assert_eq!(counts(&receiver_phase_exchange(&incremental, 3)), (4, 4));
    assert_eq!(counts(&server_receiver_phase_exchange(&wire(31))), (2, 2));
}

#[test]
fn statistics_are_read_back() {
    let mut stats = TransferStats::new();
    stats.bytes_sent = 123_456;
    stats.bytes_received = 77;
    stats.total_size = 1 << 40;
    for version in [28u8, 29, 31] {
        let mut w = Vec::new();
        write_stats(&mut w, &stats, &wire(version));
        let mut r = WireReader::new(&w);
        read_stats(&mut r, &wire(version)).unwrap();
        assert_eq!(r.remaining(), 0);
        assert!(read_stats(&mut WireReader::new(&w[..w.len() - 1]), &wire(version)).is_err());
    }
    assert!(stats.can_record(&stats));
    stats.total_size = u64::MAX;
    assert!(!stats.can_record(&stats));
}

#[test]
fn indices_name_entries() {
    let entries = vec![entry(".", S_IFDIR, 0), entry("a", S_IFREG, 1)];
    let plain = NegotiatedProtocol {
        version: 31,
        compat_flags: 0,
        checksum: ChecksumType::Md5,
        seed: 1,
    };
    let map = build_ndx_map(&entries, &plain, true);
    assert_eq!(map.get(&0), Some(&0));
    assert_eq!(map.get(&1), Some(&1));
    let incremental = NegotiatedProtocol { compat_flags: INC_RECURSE, ..plain };
    let map = build_ndx_map(&entries, &incremental, true);
    assert_eq!(map.len(), 2);
    assert!(map.values().all(|v| *v < 2));
}

#[test]
fn source_files_are_looked_for() {
    let sources = vec![b"/src".to_vec()];
    let e = entry("sub/a", S_IFREG, 1);
    assert_eq!(LocalFileReader::new(&sources, true).paths(&e), vec![b"/src/sub/a".to_vec()]);
    assert_eq!(LocalFileReader::new(&sources, false).paths(&e), vec![b"/src".to_vec()]);
    let odd = FileEntry { name: b"\xff".to_vec(), ..Default::default() };
    assert_eq!(
        ModuleFileReader::new(b"/mod").paths(&odd),
        vec!["/mod/\u{fffd}".as_bytes().to_vec()]
    );
}

#[test]
fn wire_errors_convert() {
    let io = IoFailure::new(IoErrorKind::Other, "gone");
    let e = WireError::from(FerrosyncError::Fs(FsError::NotFound { path: b"/a".to_vec() }));
    assert_eq!(e.message(), "path not found: /a");
    assert_eq!(WireError::Io(io.clone()).message(), "I/O error: gone");
    assert!(matches!(
        FerrosyncError::from(WireError::Io(io)),
        FerrosyncError::Protocol(ProtocolError::Io(_))
    ));
}

#[test]
fn the_generator_asks_for_what_needs_data() {
    let format = wire(31);
    let mut st = NdxState::default();
    let step = |idx: usize, ndx: i32, action: EntryAction, st: &mut NdxState| {
        generate_step(idx, ndx, &action, &head(), b"SUMS", false, st, &format)
    };
    let handled = EntryAction::Handled { kind: HandledKind::Directory, steps: Vec::new() };
    let (request, item) = step(0, 1, handled, &mut st);
    assert!(request.is_empty());
    assert!(matches!(
        item,
        Some(GeneratorItem::Handled { entry_idx: 0, kind: HandledKind::Directory })
    ));
    let (request, item) = step(1, 2, EntryAction::Skipped, &mut st);
    assert!(request.is_empty() && item.is_none());
    let link = EntryAction::DeferredHardlink { source_name: b"a".to_vec() };
    let (request, item) = step(2, 3, link, &mut st);
    assert!(request.is_empty());
    assert!(matches!(item, Some(GeneratorItem::DeferredHardlink { entry_idx: 2, .. })));

    let (request, item) = step(3, 4, EntryAction::NeedsTransfer { basis: Vec::new() }, &mut st);
    assert!(matches!(item, Some(GeneratorItem::Transfer { entry_idx: 3, blength: 700 })));
    let mut asked = Vec::new();
    ask_for_file(&mut asked, 4, &head(), b"SUMS", false, &mut NdxState::default(), &format);
    assert_eq!(request, asked);
}
