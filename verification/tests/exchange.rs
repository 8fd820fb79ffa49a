use ferrosync_core::filelist::codec::fields::write_end_of_flist;
use ferrosync_core::filelist::codec::hlink::HardLinkEncoder;
use ferrosync_core::filelist::codec::state::DeltaState;
use ferrosync_core::filelist::codec::{encode_entry, FileListOptions};
use ferrosync_core::filelist::entry::{FileEntry, S_IFDIR, S_IFREG};
use ferrosync_core::filelist::exchange::{recv_file_list, recv_file_list_streaming, send_file_list};
use ferrosync_core::filelist::incremental::IncrementalSender;
use ferrosync_core::options::TransferConfig;
use ferrosync_core::protocol::handshake::{
    ChecksumType, NegotiatedProtocol, INC_RECURSE, SAFE_FLIST, VARINT_FLIST_FLAGS,
};
use ferrosync_core::protocol::wire::WireReader;

fn proto(version: u8, compat_flags: u32, checksum: ChecksumType) -> NegotiatedProtocol {
    NegotiatedProtocol { version, compat_flags, checksum, seed: 42 }
}

fn proto_v31() -> NegotiatedProtocol {
    proto(31, SAFE_FLIST | VARINT_FLIST_FLAGS | INC_RECURSE, ChecksumType::Md5)
}

fn proto_v27() -> NegotiatedProtocol {
    proto(27, 0, ChecksumType::Md4)
}

fn proto_v29() -> NegotiatedProtocol {
    proto(29, 0, ChecksumType::Md4)
}

fn proto_v30_no_inc() -> NegotiatedProtocol {
    proto(30, SAFE_FLIST | VARINT_FLIST_FLAGS, ChecksumType::Md5)
}

fn default_opts() -> TransferConfig {
    TransferConfig::default()
}

fn test_entries() -> Vec<FileEntry> {
    vec![
        FileEntry {
            name: b"alpha.txt".to_vec(),
            len: 100,
            mtime: 1700000000,
            mode: S_IFREG | 0o644,
            ..Default::default()
        },
        FileEntry {
            name: b"beta".to_vec(),
            len: 0,
            mtime: 1700000000,
            mode: S_IFDIR | 0o755,
            ..Default::default()
        },
        FileEntry {
            name: b"gamma.txt".to_vec(),
            len: 200,
            mtime: 1700000001,
            mode: S_IFREG | 0o644,
            ..Default::default()
        },
    ]
}

#[test]
fn test_batch_roundtrip_proto27() {
    let proto = proto_v27();
    let opts = default_opts();
    let entries = test_entries();

    let mut buf = Vec::new();
    send_file_list(&mut buf, &entries, &proto, &opts);

    let mut cursor = WireReader::new(&buf);
    let received = recv_file_list(&mut cursor, &proto, &opts)
        .unwrap()
        .entries;

    assert_eq!(received.len(), 3);
    // Entries are sorted by sort_file_list.
    assert_eq!(received[0].name, b"alpha.txt");
    assert_eq!(received[0].len, 100);
}

#[test]
fn test_batch_roundtrip_proto29() {
    let proto = proto_v29();
    let opts = default_opts();
    let entries = test_entries();

    let mut buf = Vec::new();
    send_file_list(&mut buf, &entries, &proto, &opts);

    let mut cursor = WireReader::new(&buf);
    let received = recv_file_list(&mut cursor, &proto, &opts)
        .unwrap()
        .entries;

    assert_eq!(received.len(), 3);
    assert_eq!(received[0].name, b"alpha.txt");
}

#[test]
fn test_batch_roundtrip_proto30_no_incremental() {
    let proto = proto_v30_no_inc();
    let opts = default_opts();
    let entries = test_entries();

    let mut buf = Vec::new();
    send_file_list(&mut buf, &entries, &proto, &opts);

    let mut cursor = WireReader::new(&buf);
    let received = recv_file_list(&mut cursor, &proto, &opts)
        .unwrap()
        .entries;

    assert_eq!(received.len(), 3);
}

#[test]
fn test_incremental_roundtrip_proto31() {
    let proto = proto_v31();
    let opts = default_opts();
    let entries = test_entries();

    let mut buf = Vec::new();
    send_file_list(&mut buf, &entries, &proto, &opts);

    let mut cursor = WireReader::new(&buf);
    let received = recv_file_list(&mut cursor, &proto, &opts)
        .unwrap()
        .entries;

    assert_eq!(received.len(), 3);
    // With rsync's canonical sort (proto >= 29), files sort before dirs:
    // alpha.txt, gamma.txt, beta (dir).
    assert_eq!(received[0].name, b"alpha.txt");
    assert_eq!(received[0].len, 100);
    assert_eq!(received[1].name, b"gamma.txt");
    assert_eq!(received[1].len, 200);
    assert_eq!(received[2].name, b"beta");
}

#[test]
fn test_streaming_recv_proto31() {
    let proto = proto_v31();
    let opts = default_opts();
    let entries = test_entries();

    let mut buf = Vec::new();
    send_file_list(&mut buf, &entries, &proto, &opts);

    let mut cursor = WireReader::new(&buf);

    let (received, end) = recv_file_list_streaming(&mut cursor, &proto, &opts);
    assert!(end.is_ok());

    assert_eq!(received.len(), 3);
    assert_eq!(received[0].name, b"alpha.txt");
}

#[test]
fn test_streaming_recv_proto27() {
    let proto = proto_v27();
    let opts = default_opts();
    let entries = test_entries();

    let mut buf = Vec::new();
    send_file_list(&mut buf, &entries, &proto, &opts);

    let mut cursor = WireReader::new(&buf);

    let (received, end) = recv_file_list_streaming(&mut cursor, &proto, &opts);
    assert!(end.is_ok());

    assert_eq!(received.len(), 3);
}

#[test]
fn exchange_test_empty_file_list() {
    let proto = proto_v31();
    let opts = default_opts();
    let entries: Vec<FileEntry> = vec![];

    let mut buf = Vec::new();
    send_file_list(&mut buf, &entries, &proto, &opts);

    let mut cursor = WireReader::new(&buf);
    let received = recv_file_list(&mut cursor, &proto, &opts)
        .unwrap()
        .entries;

    assert!(received.is_empty());
}

#[test]
fn test_flist_options_from_protocol() {
    let proto = proto_v31();
    let opts = TransferConfig::builder()
        .archive()
        .checksum_mode(true)
        .build();

    let flist_opts = FileListOptions::from_protocol(&proto, &opts);
    assert_eq!(flist_opts.protocol_version, 31);
    assert!(flist_opts.xfer_flags_as_varint);
    assert!(flist_opts.preserve_uid);
    assert!(flist_opts.preserve_gid);
    assert!(flist_opts.preserve_devices);
    assert!(flist_opts.preserve_specials);
    assert!(flist_opts.preserve_links);
    assert!(flist_opts.always_checksum);
    assert_eq!(flist_opts.checksum_len, 16);
}

#[test]
fn test_flist_options_from_protocol_v27() {
    let proto = proto_v27();
    let opts = TransferConfig::default();

    let flist_opts = FileListOptions::from_protocol(&proto, &opts);
    assert_eq!(flist_opts.protocol_version, 27);
    assert!(!flist_opts.xfer_flags_as_varint);
    assert_eq!(flist_opts.checksum_len, 16); // MD4 = 16 bytes
}

#[test]
fn test_checksum_type_affects_flist_opts() {
    let mut proto = proto_v31();
    proto.checksum = ChecksumType::Absent;
    let opts = TransferConfig::builder().checksum_mode(true).build();

    let flist_opts = FileListOptions::from_protocol(&proto, &opts);
    assert_eq!(flist_opts.checksum_len, 0);
}

fn directory(name: &str) -> FileEntry {
    FileEntry {
        name: name.as_bytes().to_vec(),
        mtime: 1700000000,
        mode: S_IFDIR | 0o755,
        ..Default::default()
    }
}

#[test]
fn lists_of_directories_come_out_in_canonical_order() {
    let protocol = proto_v31();
    let config = TransferConfig::builder().recursive(true).build();
    let opts = FileListOptions::from_protocol(&protocol, &config);
    let inner = FileEntry {
        name: b"a/x".to_vec(),
        len: 5,
        mtime: 1700000001,
        mode: S_IFREG | 0o644,
        ..Default::default()
    };
    let mut buf = Vec::new();
    let mut sender = IncrementalSender::default();
    let mut state = DeltaState::default();
    let mut links = HardLinkEncoder::new();
    for (i, e) in [directory("b"), directory("a")].iter().enumerate() {
        encode_entry(&mut buf, e, &mut state, &opts, &mut links, None, 1 + i as i32);
    }
    write_end_of_flist(&mut buf, 0, &opts);
    sender.write_sub_flist_marker(&mut buf, 1, opts.protocol_version);
    encode_entry(&mut buf, &inner, &mut state, &opts, &mut links, None, 4);
    write_end_of_flist(&mut buf, 0, &opts);
    sender.write_flist_eof(&mut buf, opts.protocol_version);

    let mut r = WireReader::new(&buf);
    let got = recv_file_list(&mut r, &protocol, &config).unwrap();
    let names: Vec<&[u8]> = got.entries.iter().map(|e| e.name.as_slice()).collect();
    assert_eq!(names, vec![b"a".as_slice(), b"a/x", b"b"]);
    assert_eq!(got.entry_ndx, vec![1, 4, 2]);
    assert_eq!(got.ndx_start, 1);
    assert_eq!(got.num_flists, 2);
    assert_eq!(r.remaining(), 0);
}
