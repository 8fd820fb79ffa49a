use ferrosync_core::filelist::entry::{S_IFDIR, S_IFREG, WIRE_S_IFLNK};
use ferrosync_core::fs::windows::{
    WindowsFileSystem, FILE_ATTRIBUTE_DIRECTORY, FILE_ATTRIBUTE_READONLY,
    FILE_ATTRIBUTE_REPARSE_POINT, SEC_TO_UNIX_EPOCH, WINDOWS_TICK,
};

#[test]
fn test_filetime_to_unix_epoch() {
    // Windows FILETIME for Unix epoch (1970-01-01 00:00:00 UTC).
    // = 11644473600 * 10_000_000
    let ft: u64 = 116_444_736_000_000_000;
    let (secs, nsec) = WindowsFileSystem::filetime_to_unix(ft);
    assert_eq!(secs, 0);
    assert_eq!(nsec, 0);
}

#[test]
fn test_filetime_to_unix_with_subseconds() {
    // Unix epoch + 1.5 seconds
    let ft: u64 = 116_444_736_000_000_000 + 15_000_000;
    let (secs, nsec) = WindowsFileSystem::filetime_to_unix(ft);
    assert_eq!(secs, 1);
    assert_eq!(nsec, 500_000_000);
}

#[test]
fn test_filetime_to_unix_2024() {
    // 2024-01-01 00:00:00 UTC = 1704067200 Unix
    // As Windows FILETIME: (1704067200 + 11644473600) * 10_000_000
    let unix_secs: i64 = 1_704_067_200;
    let ft = ((unix_secs + SEC_TO_UNIX_EPOCH) as u64) * WINDOWS_TICK;
    let (secs, nsec) = WindowsFileSystem::filetime_to_unix(ft);
    assert_eq!(secs, unix_secs);
    assert_eq!(nsec, 0);
}

#[test]
fn test_mode_from_attrs_regular_file() {
    let mode = WindowsFileSystem::mode_from_attrs(0, false);
    assert_eq!(mode, S_IFREG | 0o644);
}

#[test]
fn test_mode_from_attrs_readonly_file() {
    let mode = WindowsFileSystem::mode_from_attrs(FILE_ATTRIBUTE_READONLY, false);
    assert_eq!(mode, S_IFREG | 0o444);
}

#[test]
fn test_mode_from_attrs_directory() {
    let mode = WindowsFileSystem::mode_from_attrs(FILE_ATTRIBUTE_DIRECTORY, true);
    assert_eq!(mode, S_IFDIR | 0o755);
}

#[test]
fn test_mode_from_attrs_readonly_directory() {
    let mode = WindowsFileSystem::mode_from_attrs(
        FILE_ATTRIBUTE_READONLY | FILE_ATTRIBUTE_DIRECTORY,
        true,
    );
    assert_eq!(mode, S_IFDIR | 0o555);
}

#[test]
fn test_mode_from_attrs_reparse_point() {
    let mode = WindowsFileSystem::mode_from_attrs(FILE_ATTRIBUTE_REPARSE_POINT, false);
    assert_eq!(mode, WIRE_S_IFLNK | 0o777);
}

#[test]
fn test_unix_to_system_time_positive() {
    let t = WindowsFileSystem::unix_to_system_time(1_000_000, 0);
    assert!(!t.before);
    assert_eq!(t.secs, 1_000_000);
    assert_eq!(t.nsec, 0);
}

#[test]
fn test_unix_to_system_time_with_nanos() {
    let t = WindowsFileSystem::unix_to_system_time(100, 500_000_000);
    assert!(!t.before);
    assert_eq!(t.secs, 100);
    assert_eq!(t.nsec, 500_000_000);
}
