use ferrosync_core::fs::fake_super::FakeSuperFs;

#[test]
fn test_parse_stat() {
    let val = b"100644 1000:1000 0:0";
    let (mode, uid, gid, rdev) = FakeSuperFs::parse_stat(val).unwrap();
    assert_eq!(mode, 0o100644);
    assert_eq!(uid, 1000);
    assert_eq!(gid, 1000);
    assert_eq!(rdev, 0);
}

#[test]
fn test_parse_stat_no_device() {
    let val = b"100755 0:0";
    let (mode, uid, gid, rdev) = FakeSuperFs::parse_stat(val).unwrap();
    assert_eq!(mode, 0o100755);
    assert_eq!(uid, 0);
    assert_eq!(gid, 0);
    assert_eq!(rdev, 0);
}

#[test]
fn test_format_stat() {
    let val = FakeSuperFs::format_stat(0o100644, 1000, 1000, 0);
    assert_eq!(std::str::from_utf8(&val).unwrap(), "100644 1000:1000 0:0");
}

#[test]
fn test_roundtrip() {
    let mode = 0o100755;
    let uid = 0;
    let gid = 0;
    let rdev = (8u64 << 8) | 1;
    let val = FakeSuperFs::format_stat(mode, uid, gid, rdev);
    let (m, u, g, r) = FakeSuperFs::parse_stat(&val).unwrap();
    assert_eq!(m, mode);
    assert_eq!(u, uid);
    assert_eq!(g, gid);
    assert_eq!(r, rdev);
}

#[test]
fn test_roundtrip_directory_mode() {
    let mode = 0o040755;
    let uid = 1000;
    let gid = 1000;
    let rdev = 0;
    let val = FakeSuperFs::format_stat(mode, uid, gid, rdev);
    let (m, u, g, r) = FakeSuperFs::parse_stat(&val).unwrap();
    assert_eq!(m, mode);
    assert_eq!(u, uid);
    assert_eq!(g, gid);
    assert_eq!(r, rdev);
}

#[test]
fn test_parse_stat_invalid_utf8() {
    let val = &[0xFF, 0xFE, 0xFD];
    assert!(FakeSuperFs::parse_stat(val).is_none());
}

#[test]
fn test_parse_stat_malformed() {
    assert!(FakeSuperFs::parse_stat(b"garbage").is_none());
    assert!(FakeSuperFs::parse_stat(b"").is_none());
    assert!(FakeSuperFs::parse_stat(b"100644").is_none());
    assert!(FakeSuperFs::parse_stat(b"100644 bad").is_none());
}
