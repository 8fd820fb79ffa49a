use ferrosync_core::error::ProtocolError;
use ferrosync_core::filelist::codec::state::DeltaState;
use ferrosync_core::filelist::codec::FileListOptions;
use ferrosync_core::filelist::entry::{FileEntry, S_IFDIR, S_IFREG};
use ferrosync_core::filelist::incremental::{
    IncrementalReceiver, IncrementalSender, NDX_FLIST_EOF, NDX_FLIST_OFFSET,
};
use ferrosync_core::protocol::wire::WireReader;

fn test_opts() -> FileListOptions {
    FileListOptions {
        protocol_version: 31,
        xfer_flags_as_varint: true,
        ..Default::default()
    }
}

#[test]
fn test_incremental_roundtrip() {
    let opts = test_opts();

    let root_entries = vec![
        FileEntry {
            name: b"file.txt".to_vec(),
            len: 100,
            mtime: 1700000000,
            mode: S_IFREG | 0o644,
            ..Default::default()
        },
        FileEntry {
            name: b"subdir".to_vec(),
            len: 0,
            mtime: 1700000000,
            mode: S_IFDIR | 0o755,
            ..Default::default()
        },
    ];

    let sub_entries = vec![FileEntry {
        name: b"inner.txt".to_vec(),
        len: 50,
        mtime: 1700000001,
        mode: S_IFREG | 0o644,
        ..Default::default()
    }];

    // Encode.
    let mut buf = Vec::new();
    let mut sender = IncrementalSender::default();

    // Send root flist (index 0 = dir for root).
    sender
        .send_sub_flist(&mut buf, 0, &root_entries, &opts);
    // Send sub-flist for directory at index 1.
    sender
        .send_sub_flist(&mut buf, 1, &sub_entries, &opts);
    // EOF.
    sender
        .write_flist_eof(&mut buf, opts.protocol_version);

    // Decode.
    let mut cursor = WireReader::new(&buf);
    let mut receiver = IncrementalReceiver::default();

    // Read first marker.
    let ndx = receiver
        .read_ndx_marker(&mut cursor, opts.protocol_version)
        .unwrap();
    assert!(ndx <= NDX_FLIST_OFFSET);
    let dir_ndx = NDX_FLIST_OFFSET - ndx;
    assert_eq!(dir_ndx, 0);

    let sub_flist = receiver
        .recv_sub_flist(&mut cursor, dir_ndx, &opts)
        .unwrap();
    assert_eq!(sub_flist.entries.len(), 2);
    assert_eq!(sub_flist.entries[0].name, b"file.txt");
    assert_eq!(sub_flist.entries[1].name, b"subdir");

    // Read second marker.
    let ndx = receiver
        .read_ndx_marker(&mut cursor, opts.protocol_version)
        .unwrap();
    let dir_ndx = NDX_FLIST_OFFSET - ndx;
    assert_eq!(dir_ndx, 1);

    let sub_flist = receiver
        .recv_sub_flist(&mut cursor, dir_ndx, &opts)
        .unwrap();
    assert_eq!(sub_flist.entries.len(), 1);
    assert_eq!(sub_flist.entries[0].name, b"inner.txt");

    // Read EOF.
    let ndx = receiver
        .read_ndx_marker(&mut cursor, opts.protocol_version)
        .unwrap();
    assert_eq!(ndx, NDX_FLIST_EOF);
}

#[test]
fn test_ndx_tracking() {
    let opts = test_opts();

    let entries = vec![
        FileEntry {
            name: b"a.txt".to_vec(),
            len: 10,
            mtime: 1700000000,
            mode: S_IFREG | 0o644,
            ..Default::default()
        },
        FileEntry {
            name: b"b.txt".to_vec(),
            len: 20,
            mtime: 1700000000,
            mode: S_IFREG | 0o644,
            ..Default::default()
        },
    ];

    let mut sender = IncrementalSender::default();
    assert_eq!(sender.next_ndx, 0);

    let mut buf = Vec::new();
    sender
        .send_sub_flist(&mut buf, 0, &entries, &opts);
    assert_eq!(sender.next_ndx, 2);
}

#[test]
fn a_list_ends_where_no_index_is_left() {
    let opts = test_opts();
    let file = |name: &str| FileEntry {
        name: name.as_bytes().to_vec(),
        len: 1,
        mtime: 1700000000,
        mode: S_IFREG | 0o644,
        ..Default::default()
    };
    let mut buf = Vec::new();
    IncrementalSender::default().send_sub_flist(&mut buf, 0, &[file("a"), file("b")], &opts);
    let read = |next_ndx: i32| {
        let mut receiver = IncrementalReceiver::default();
        receiver.next_ndx = next_ndx;
        let mut r = WireReader::new(&buf);
        receiver.read_ndx_marker(&mut r, opts.protocol_version).unwrap();
        let got = receiver.recv_sub_flist(&mut r, 0, &opts);
        (got, receiver.next_ndx)
    };
    let (got, next) = read(i32::MAX - 3);
    assert_eq!(got.unwrap().entries.len(), 2);
    assert_eq!(next, i32::MAX);
    // What was read before the list had to end keeps its index.
    for (start, entries) in [(i32::MAX - 2, 1), (i32::MAX - 1, 0), (i32::MAX, 0)] {
        let (got, next) = read(start);
        assert!(matches!(
            got,
            Err(ProtocolError::WireValueOutOfRange { field: "file list index", .. })
        ));
        assert_eq!(next, start + entries);
    }
}

#[test]
fn a_list_that_is_cut_off_keeps_its_indices() {
    let opts = test_opts();
    let file = |name: &str| FileEntry {
        name: name.as_bytes().to_vec(),
        len: 1,
        mtime: 1700000000,
        mode: S_IFREG | 0o644,
        ..Default::default()
    };
    let mut buf = Vec::new();
    IncrementalSender::default().send_sub_flist(&mut buf, 0, &[file("a"), file("b")], &opts);
    buf.truncate(buf.len() - 3);
    let mut receiver = IncrementalReceiver::default();
    let mut state = DeltaState::default();
    let mut r = WireReader::new(&buf);
    receiver.read_ndx_marker(&mut r, opts.protocol_version).unwrap();
    let got = receiver.recv_sub_flist_with_state(&mut r, 0, &opts, &mut state);
    assert!(matches!(got, Err(ProtocolError::Io(_))));
    assert_eq!(receiver.next_ndx, 2);
    assert_eq!(state.prev_name, b"a");
    assert_eq!(state.ndx_start, 1);
}
