//! Filesystem-type fusion, the type-code map, and the driver table.

use oxidisk::driver::{default_drivers, driver_for, FileSystemDriver};
use oxidisk::fstype::{fuse_fs_type, mkfs_binary_for, typecode_for};

#[test]
fn fusion_first_candidate_wins() {
    // a FAT filesystem type beats an APFS content hint further down
    let candidates = vec!["msdos".to_string(), "Apple_APFS".to_string()];
    assert_eq!(fuse_fs_type(&candidates), "fat32");
}

#[test]
fn fusion_priority_within_candidate() {
    // within one candidate, apfs outranks the later rules
    let candidates = vec!["apfs_and_fat".to_string()];
    assert_eq!(fuse_fs_type(&candidates), "apfs");
}

#[test]
fn fusion_falls_through_candidates() {
    let candidates = vec!["mystery".to_string(), "Linux Filesystem".to_string()];
    assert_eq!(fuse_fs_type(&candidates), "ext4");
}

#[test]
fn fusion_case_insensitive() {
    let candidates = vec!["NTFS".to_string()];
    assert_eq!(fuse_fs_type(&candidates), "ntfs");
}

#[test]
fn fusion_unknown_when_nothing_matches() {
    let candidates = vec!["mystery".to_string()];
    assert_eq!(fuse_fs_type(&candidates), "unknown");
    let empty: Vec<String> = Vec::new();
    assert_eq!(fuse_fs_type(&empty), "unknown");
}

#[test]
fn typecode_map_is_exact() {
    assert_eq!(typecode_for("ext4").as_deref(), Some("8300"));
    assert_eq!(typecode_for("btrfs").as_deref(), Some("8300"));
    assert_eq!(typecode_for("xfs").as_deref(), Some("8300"));
    assert_eq!(typecode_for("f2fs").as_deref(), Some("8300"));
    assert_eq!(typecode_for("ntfs").as_deref(), Some("0700"));
    assert_eq!(typecode_for("swap").as_deref(), Some("8200"));
    assert_eq!(typecode_for("apfs"), None);
    assert_eq!(typecode_for("exfat"), None);
    assert_eq!(typecode_for("fat32"), None);
}

#[test]
fn mkfs_binary_table() {
    assert_eq!(mkfs_binary_for("ext4").as_deref(), Some("mkfs.ext4"));
    assert_eq!(mkfs_binary_for("swap").as_deref(), Some("mkswap"));
    assert_eq!(mkfs_binary_for("apfs"), None);
}

#[test]
fn registry_has_six_drivers() {
    let drivers = default_drivers();
    let ids: Vec<&str> = drivers.iter().map(|d| d.id()).collect();
    assert_eq!(ids, vec!["ext4", "ntfs", "btrfs", "xfs", "f2fs", "swap"]);
}

#[test]
fn ext4_driver_commands() {
    let d = driver_for("ext4").unwrap();
    let (bin, args) = d.mkfs_command("/dev/disk4s1", "DATA").unwrap();
    assert_eq!(bin, "mkfs.ext4");
    assert_eq!(args, vec!["-F", "-L", "DATA", "/dev/disk4s1"]);
    let (bin, args) = d.label_command("/dev/disk4s1", "DATA").unwrap();
    assert_eq!(bin, "e2label");
    assert_eq!(args, vec!["/dev/disk4s1", "DATA"]);
    let (bin, args) = d.uuid_command("/dev/disk4s1", "random").unwrap();
    assert_eq!(bin, "tune2fs");
    assert_eq!(args, vec!["-U", "random", "/dev/disk4s1"]);
}

#[test]
fn capability_absence_is_a_value() {
    let ntfs = driver_for("ntfs").unwrap();
    assert!(ntfs.uuid_command("/dev/disk4s1", "random").is_none());
    let f2fs = driver_for("f2fs").unwrap();
    assert!(f2fs.label_command("/dev/disk4s1", "X").is_none());
    assert!(f2fs.uuid_command("/dev/disk4s1", "random").is_none());
    let (bin, args) = f2fs.mkfs_command("/dev/disk4s1", "ignored").unwrap();
    assert_eq!(bin, "mkfs.f2fs");
    assert_eq!(args, vec!["/dev/disk4s1"]);
}

#[test]
fn swap_driver_commands() {
    let d = driver_for("swap").unwrap();
    let (bin, args) = d.mkfs_command("/dev/disk4s1", "SW").unwrap();
    assert_eq!(bin, "mkswap");
    assert_eq!(args, vec!["-L", "SW", "/dev/disk4s1"]);
    let (bin, args) = d.uuid_command("/dev/disk4s1", "random").unwrap();
    assert_eq!(bin, "swaplabel");
    assert_eq!(args, vec!["-U", "random", "/dev/disk4s1"]);
}

#[test]
fn unknown_filesystem_has_no_driver() {
    assert!(driver_for("apfs").is_none());
    assert!(driver_for("zfs").is_none());
}
