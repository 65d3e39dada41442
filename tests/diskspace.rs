use ncp::diskspace::{check_disk_space, format_bytes, required_with_margin};

#[test]
fn test_format_bytes() {
    assert_eq!(format_bytes(0), "0 B");
    assert_eq!(format_bytes(512), "512 B");
    assert_eq!(format_bytes(1024), "1.0 KB");
    assert_eq!(format_bytes(1536), "1.5 KB");
    assert_eq!(format_bytes(1024 * 1024), "1.0 MB");
    assert_eq!(format_bytes(1024 * 1024 * 1024), "1.0 GB");
}

#[test]
fn format_bytes_edges() {
    assert_eq!(format_bytes(1023), "1023 B");
    assert_eq!(format_bytes(1126), "1.1 KB");
    assert_eq!(format_bytes(1048575), "1024.0 KB");
    assert_eq!(format_bytes(1024u64.pow(4)), "1.0 TB");
    assert_eq!(format_bytes(3 * 1024u64.pow(5)), "3072.0 TB");
    assert_eq!(format_bytes(10 * 1024 * 1024), "10.0 MB");
}

#[test]
fn disk_space_margin() {
    assert!(check_disk_space(1100, 1000));
    assert!(!check_disk_space(1099, 1000));
    assert!(check_disk_space(0, 0));
    assert_eq!(required_with_margin(1000), 1100);
    assert_eq!(required_with_margin(9), 9);
    assert_eq!(required_with_margin(u64::MAX), u64::MAX);
    assert!(!check_disk_space(u64::MAX - 1, u64::MAX - 5));
    assert!(check_disk_space(u64::MAX, u64::MAX - 5));
}
