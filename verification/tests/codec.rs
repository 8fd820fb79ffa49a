use ferrosync_core::filelist::codec::fields::common_prefix_len;
use ferrosync_core::filelist::codec::{
    recv_file_entry, send_file_entry, write_end_of_flist, DeltaState, FileListOptions,
    ReadEntryResult,
};
use ferrosync_core::filelist::entry::{FileEntry, S_IFDIR, S_IFREG, WIRE_S_IFLNK};
use ferrosync_core::filelist::xmit::XMIT_TOP_DIR;
use ferrosync_core::protocol::wire::WireReader;

fn default_opts() -> FileListOptions {
    FileListOptions {
        protocol_version: 31,
        xfer_flags_as_varint: true,
        ..Default::default()
    }
}

#[test]
fn test_roundtrip_simple_file() {
    let opts = default_opts();
    let entry = FileEntry {
        name: b"hello.txt".to_vec(),
        len: 1234,
        mtime: 1700000000,
        mode: S_IFREG | 0o644,
        ..Default::default()
    };

    let mut buf = Vec::new();
    let mut enc_state = DeltaState::default();
    send_file_entry(&mut buf, &entry, &mut enc_state, &opts);
    write_end_of_flist(&mut buf, 0, &opts);

    let mut cursor = WireReader::new(&buf);
    let mut dec_state = DeltaState::default();
    let result = recv_file_entry(&mut cursor, &mut dec_state, &opts)
        .unwrap();

    match result {
        ReadEntryResult::Entry(decoded) => {
            assert_eq!(decoded.name, b"hello.txt");
            assert_eq!(decoded.len, 1234);
            assert_eq!(decoded.mtime, 1700000000);
            assert_eq!(decoded.mode, S_IFREG | 0o644);
        }
        ReadEntryResult::EndOfList { .. } => panic!("expected entry, got end of list"),
    }

    // Read end of list.
    let result = recv_file_entry(&mut cursor, &mut dec_state, &opts)
        .unwrap();
    match result {
        ReadEntryResult::EndOfList { io_error } => assert_eq!(io_error, 0),
        ReadEntryResult::Entry(_) => panic!("expected end of list"),
    }
}

#[test]
fn test_roundtrip_multiple_entries_prefix_compression() {
    let opts = default_opts();
    let entries = vec![
        FileEntry {
            name: b"src/main.rs".to_vec(),
            len: 100,
            mtime: 1700000000,
            mode: S_IFREG | 0o644,
            ..Default::default()
        },
        FileEntry {
            name: b"src/lib.rs".to_vec(),
            len: 200,
            mtime: 1700000001,
            mode: S_IFREG | 0o644,
            ..Default::default()
        },
        FileEntry {
            name: b"src/main_test.rs".to_vec(),
            len: 300,
            mtime: 1700000002,
            mode: S_IFREG | 0o644,
            ..Default::default()
        },
    ];

    let mut buf = Vec::new();
    let mut enc_state = DeltaState::default();
    for entry in &entries {
        send_file_entry(&mut buf, entry, &mut enc_state, &opts);
    }
    write_end_of_flist(&mut buf, 0, &opts);

    let mut cursor = WireReader::new(&buf);
    let mut dec_state = DeltaState::default();
    for expected in &entries {
        match recv_file_entry(&mut cursor, &mut dec_state, &opts)
            .unwrap()
        {
            ReadEntryResult::Entry(decoded) => {
                assert_eq!(decoded.name, expected.name);
                assert_eq!(decoded.len, expected.len);
                assert_eq!(decoded.mtime, expected.mtime);
                assert_eq!(decoded.mode, expected.mode);
            }
            ReadEntryResult::EndOfList { .. } => panic!("unexpected end of list"),
        }
    }
}

#[test]
fn test_roundtrip_directory() {
    let opts = default_opts();
    let entry = FileEntry {
        name: b"mydir".to_vec(),
        len: 0,
        mtime: 1700000000,
        mode: S_IFDIR | 0o755,
        flags: XMIT_TOP_DIR,
        ..Default::default()
    };

    let mut buf = Vec::new();
    let mut enc_state = DeltaState::default();
    send_file_entry(&mut buf, &entry, &mut enc_state, &opts);
    write_end_of_flist(&mut buf, 0, &opts);

    let mut cursor = WireReader::new(&buf);
    let mut dec_state = DeltaState::default();
    match recv_file_entry(&mut cursor, &mut dec_state, &opts)
        .unwrap()
    {
        ReadEntryResult::Entry(decoded) => {
            assert_eq!(decoded.name, b"mydir");
            assert_eq!(decoded.mode, S_IFDIR | 0o755);
            assert!(decoded.is_dir());
            assert_eq!(decoded.flags & XMIT_TOP_DIR, XMIT_TOP_DIR);
        }
        ReadEntryResult::EndOfList { .. } => panic!("expected entry"),
    }
}

#[test]
fn test_roundtrip_with_uid_gid() {
    let opts = FileListOptions {
        preserve_uid: true,
        preserve_gid: true,
        ..default_opts()
    };

    let entry = FileEntry {
        name: b"owned.txt".to_vec(),
        len: 50,
        mtime: 1700000000,
        mode: S_IFREG | 0o644,
        uid: 1000,
        gid: 100,
        user_name: b"alice".to_vec(),
        group_name: b"users".to_vec(),
        ..Default::default()
    };

    let mut buf = Vec::new();
    let mut enc_state = DeltaState::default();
    send_file_entry(&mut buf, &entry, &mut enc_state, &opts);
    write_end_of_flist(&mut buf, 0, &opts);

    let mut cursor = WireReader::new(&buf);
    let mut dec_state = DeltaState::default();
    match recv_file_entry(&mut cursor, &mut dec_state, &opts)
        .unwrap()
    {
        ReadEntryResult::Entry(decoded) => {
            assert_eq!(decoded.uid, 1000);
            assert_eq!(decoded.gid, 100);
            assert_eq!(decoded.user_name, b"alice");
            assert_eq!(decoded.group_name, b"users");
        }
        ReadEntryResult::EndOfList { .. } => panic!("expected entry"),
    }
}

#[test]
fn test_roundtrip_symlink() {
    let opts = FileListOptions {
        preserve_links: true,
        ..default_opts()
    };

    let entry = FileEntry {
        name: b"link.txt".to_vec(),
        len: 0,
        mtime: 1700000000,
        mode: WIRE_S_IFLNK | 0o777,
        link_target: b"/tmp/target".to_vec(),
        ..Default::default()
    };

    let mut buf = Vec::new();
    let mut enc_state = DeltaState::default();
    send_file_entry(&mut buf, &entry, &mut enc_state, &opts);
    write_end_of_flist(&mut buf, 0, &opts);

    let mut cursor = WireReader::new(&buf);
    let mut dec_state = DeltaState::default();
    match recv_file_entry(&mut cursor, &mut dec_state, &opts)
        .unwrap()
    {
        ReadEntryResult::Entry(decoded) => {
            assert!(decoded.is_symlink());
            assert_eq!(decoded.link_target, b"/tmp/target");
        }
        ReadEntryResult::EndOfList { .. } => panic!("expected entry"),
    }
}

#[test]
fn test_roundtrip_with_checksum() {
    let opts = FileListOptions {
        always_checksum: true,
        checksum_len: 16,
        ..default_opts()
    };

    let checksum = vec![0xAA; 16];
    let entry = FileEntry {
        name: b"data.bin".to_vec(),
        len: 4096,
        mtime: 1700000000,
        mode: S_IFREG | 0o644,
        checksum: checksum.clone(),
        ..Default::default()
    };

    let mut buf = Vec::new();
    let mut enc_state = DeltaState::default();
    send_file_entry(&mut buf, &entry, &mut enc_state, &opts);
    write_end_of_flist(&mut buf, 0, &opts);

    let mut cursor = WireReader::new(&buf);
    let mut dec_state = DeltaState::default();
    match recv_file_entry(&mut cursor, &mut dec_state, &opts)
        .unwrap()
    {
        ReadEntryResult::Entry(decoded) => {
            assert_eq!(decoded.checksum, checksum);
        }
        ReadEntryResult::EndOfList { .. } => panic!("expected entry"),
    }
}

#[test]
fn test_roundtrip_same_mode_time() {
    let opts = default_opts();

    let entry1 = FileEntry {
        name: b"a.txt".to_vec(),
        len: 100,
        mtime: 1700000000,
        mode: S_IFREG | 0o644,
        ..Default::default()
    };
    let entry2 = FileEntry {
        name: b"b.txt".to_vec(),
        len: 200,
        mtime: 1700000000,     // Same mtime
        mode: S_IFREG | 0o644, // Same mode
        ..Default::default()
    };

    let mut buf = Vec::new();
    let mut enc_state = DeltaState::default();
    send_file_entry(&mut buf, &entry1, &mut enc_state, &opts);
    let size_first = buf.len();
    send_file_entry(&mut buf, &entry2, &mut enc_state, &opts);
    let size_second = buf.len() - size_first;
    write_end_of_flist(&mut buf, 0, &opts);

    // Second entry should be smaller due to delta encoding.
    assert!(
        size_second < size_first,
        "second entry ({size_second}) should be smaller than first ({size_first})"
    );

    let mut cursor = WireReader::new(&buf);
    let mut dec_state = DeltaState::default();
    match recv_file_entry(&mut cursor, &mut dec_state, &opts)
        .unwrap()
    {
        ReadEntryResult::Entry(d) => assert_eq!(d.name, b"a.txt"),
        _ => panic!("expected entry"),
    }
    match recv_file_entry(&mut cursor, &mut dec_state, &opts)
        .unwrap()
    {
        ReadEntryResult::Entry(d) => {
            assert_eq!(d.name, b"b.txt");
            assert_eq!(d.mtime, 1700000000);
            assert_eq!(d.mode, S_IFREG | 0o644);
        }
        _ => panic!("expected entry"),
    }
}

#[test]
fn test_roundtrip_mtime_nsec() {
    let opts = default_opts();
    let entry = FileEntry {
        name: b"precise.txt".to_vec(),
        len: 42,
        mtime: 1700000000,
        mtime_nsec: 123456789,
        mode: S_IFREG | 0o644,
        ..Default::default()
    };

    let mut buf = Vec::new();
    let mut enc_state = DeltaState::default();
    send_file_entry(&mut buf, &entry, &mut enc_state, &opts);
    write_end_of_flist(&mut buf, 0, &opts);

    let mut cursor = WireReader::new(&buf);
    let mut dec_state = DeltaState::default();
    match recv_file_entry(&mut cursor, &mut dec_state, &opts)
        .unwrap()
    {
        ReadEntryResult::Entry(decoded) => {
            assert_eq!(decoded.mtime_nsec, 123456789);
        }
        ReadEntryResult::EndOfList { .. } => panic!("expected entry"),
    }
}

#[test]
fn test_end_of_list_with_error() {
    let opts = default_opts();

    let mut buf = Vec::new();
    write_end_of_flist(&mut buf, 5, &opts);

    let mut cursor = WireReader::new(&buf);
    let mut dec_state = DeltaState::default();
    match recv_file_entry(&mut cursor, &mut dec_state, &opts)
        .unwrap()
    {
        ReadEntryResult::EndOfList { io_error } => assert_eq!(io_error, 5),
        ReadEntryResult::Entry(_) => panic!("expected end of list"),
    }
}

#[test]
fn test_end_of_list_legacy() {
    let opts = FileListOptions {
        protocol_version: 28,
        xfer_flags_as_varint: false,
        ..Default::default()
    };

    let mut buf = Vec::new();
    write_end_of_flist(&mut buf, 0, &opts);
    assert_eq!(buf, vec![0x00]); // Single zero byte.

    let mut cursor = WireReader::new(&buf);
    let mut dec_state = DeltaState::default();
    match recv_file_entry(&mut cursor, &mut dec_state, &opts)
        .unwrap()
    {
        ReadEntryResult::EndOfList { io_error } => assert_eq!(io_error, 0),
        ReadEntryResult::Entry(_) => panic!("expected end of list"),
    }
}

#[test]
fn test_common_prefix_len() {
    assert_eq!(common_prefix_len(b"", b""), 0);
    assert_eq!(common_prefix_len(b"abc", b"abd"), 2);
    assert_eq!(common_prefix_len(b"abc", b"abc"), 3);
    assert_eq!(common_prefix_len(b"src/main.rs", b"src/lib.rs"), 4);
}

#[test]
fn test_roundtrip_proto27() {
    let opts = FileListOptions {
        protocol_version: 27,
        xfer_flags_as_varint: false,
        ..Default::default()
    };

    let entry = FileEntry {
        name: b"old.txt".to_vec(),
        len: 500,
        mtime: 1600000000,
        mode: S_IFREG | 0o644,
        ..Default::default()
    };

    let mut buf = Vec::new();
    let mut enc_state = DeltaState::default();
    send_file_entry(&mut buf, &entry, &mut enc_state, &opts);
    write_end_of_flist(&mut buf, 0, &opts);

    let mut cursor = WireReader::new(&buf);
    let mut dec_state = DeltaState::default();
    match recv_file_entry(&mut cursor, &mut dec_state, &opts)
        .unwrap()
    {
        ReadEntryResult::Entry(decoded) => {
            assert_eq!(decoded.name, b"old.txt");
            assert_eq!(decoded.len, 500);
            assert_eq!(decoded.mtime, 1600000000);
        }
        ReadEntryResult::EndOfList { .. } => panic!("expected entry"),
    }
}
