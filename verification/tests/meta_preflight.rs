//! The metadata reader and the preflight rules.

use oxidisk::geometry::{disk_max_end, partition_bounds_for_disk, BoundsEntry};
use oxidisk::json::JsonValue;
use oxidisk::meta::{container_matches, detect_fs_type_from, find_partition_by_label_in,
    is_boot_roles, list_disk_partitions_from, partition_info_from, partition_protection,
    plist_string, plist_u64, read_mount_point_from, volume_used_bytes_from};
use oxidisk::preflight::{battery_blocks, parse_battery_status, parse_lsof_lines,
    required_sidecar_names, size_blocks, BatteryStatus};

fn obj(fields: Vec<(&str, JsonValue)>) -> JsonValue {
    JsonValue::Obj(fields.into_iter().map(|(k, v)| (k.to_string(), v)).collect())
}

fn s(v: &str) -> JsonValue {
    JsonValue::Str(v.to_string())
}

#[test]
fn key_fallback_order() {
    let dict = obj(vec![("UsedSpace", JsonValue::UInt(7)), ("VolumeUsedSpace", JsonValue::UInt(9))]);
    // the first key of the documented list wins
    assert_eq!(volume_used_bytes_from(&dict), Some(9));
    let dict = obj(vec![("UsedSpace", JsonValue::UInt(7))]);
    assert_eq!(volume_used_bytes_from(&dict), Some(7));
    let dict = obj(vec![("Other", JsonValue::UInt(7))]);
    assert_eq!(volume_used_bytes_from(&dict), None);
}

#[test]
fn wrongly_shaped_fields_fall_through() {
    let dict = obj(vec![("TotalSize", s("big")), ("DiskSize", JsonValue::UInt(42))]);
    assert_eq!(plist_u64(&dict, &["TotalSize", "DiskSize"]), Some(42));
    let dict = obj(vec![("MountPoint", JsonValue::UInt(1))]);
    assert_eq!(read_mount_point_from(&dict), None);
}

#[test]
fn partition_info_extraction() {
    let dict = obj(vec![
        ("PartitionOffset", JsonValue::UInt(1_048_576)),
        ("PartitionSize", JsonValue::UInt(4 << 30)),
        ("ParentWholeDisk", s("disk4")),
        ("DeviceIdentifier", s("disk4s1")),
    ]);
    let info = partition_info_from(&dict, 100 << 30).unwrap();
    assert_eq!(info.device, "/dev/disk4s1");
    assert_eq!(info.disk, "/dev/disk4");
    assert_eq!(info.partition_offset, 1_048_576);
    assert_eq!(info.partition_size, 4 << 30);
    assert_eq!(info.block_size, 512);
    assert_eq!(info.min_start, 1_048_576);
    assert_eq!(info.max_end, 100 << 30);
}

#[test]
fn partition_info_names_missing_fields() {
    let dict = obj(vec![("PartitionSize", JsonValue::UInt(1))]);
    assert_eq!(partition_info_from(&dict, 0).err().unwrap(), "PartitionOffset missing");
    let dict = obj(vec![
        ("PartitionOffset", JsonValue::UInt(1)),
        ("PartitionSize", JsonValue::UInt(1)),
    ]);
    assert_eq!(partition_info_from(&dict, 0).err().unwrap(), "ParentWholeDisk missing");
}

#[test]
fn fs_type_fusion_from_info() {
    let dict = obj(vec![("FilesystemType", s("msdos")), ("Content", s("Apple_APFS"))]);
    assert_eq!(detect_fs_type_from(&dict), "fat32");
    let dict = obj(vec![("Content", s("Apple_APFS"))]);
    assert_eq!(detect_fs_type_from(&dict), "apfs");
    let dict = obj(vec![]);
    assert_eq!(detect_fs_type_from(&dict), "unknown");
}

#[test]
fn container_matching_rules() {
    let container = obj(vec![
        ("ContainerReference", s("disk3")),
        (
            "PhysicalStores",
            JsonValue::Arr(vec![obj(vec![("DeviceIdentifier", s("/dev/disk0s2"))])]),
        ),
        (
            "Volumes",
            JsonValue::Arr(vec![obj(vec![("DeviceIdentifier", s("disk3s1"))])]),
        ),
    ]);
    assert!(container_matches(&container, "disk3"));
    assert!(container_matches(&container, "disk0s2"));
    assert!(container_matches(&container, "disk3s1"));
    assert!(!container_matches(&container, "disk9"));
}

#[test]
fn label_search_walks_disks_in_order() {
    let listing = obj(vec![(
        "AllDisksAndPartitions",
        JsonValue::Arr(vec![
            obj(vec![(
                "Partitions",
                JsonValue::Arr(vec![obj(vec![
                    ("VolumeName", s("OTHER")),
                    ("DeviceIdentifier", s("disk1s1")),
                ])]),
            )]),
            obj(vec![(
                "Partitions",
                JsonValue::Arr(vec![obj(vec![
                    ("VolumeName", s("SEED")),
                    ("DeviceIdentifier", s("disk4s1")),
                ])]),
            )]),
        ]),
    )]);
    assert_eq!(find_partition_by_label_in(&listing, "SEED"), Some("disk4s1".to_string()));
    assert_eq!(find_partition_by_label_in(&listing, "NONE"), None);
}

#[test]
fn partition_listing() {
    let dict = obj(vec![(
        "Partitions",
        JsonValue::Arr(vec![
            obj(vec![("DeviceIdentifier", s("disk4s1"))]),
            obj(vec![("DeviceIdentifier", s("disk4s2"))]),
        ]),
    )]);
    assert_eq!(list_disk_partitions_from(&dict), vec!["disk4s1", "disk4s2"]);
    assert_eq!(plist_string(&dict, &["Missing"]), None);
}

#[test]
fn apfs_listing_reports_matched_container() {
    let listing = obj(vec![(
        "Containers",
        JsonValue::Arr(vec![
            obj(vec![("ContainerReference", s("disk2"))]),
            obj(vec![
                ("ContainerReference", s("disk3")),
                ("APFSContainerUUID", s("abc")),
                ("CapacityCeiling", JsonValue::UInt(1000)),
                ("CapacityFree", JsonValue::UInt(600)),
                ("CapacityInUse", JsonValue::UInt(400)),
                (
                    "Volumes",
                    JsonValue::Arr(vec![obj(vec![
                        ("DeviceIdentifier", s("disk3s1")),
                        ("Name", s("Data")),
                        ("Roles", JsonValue::Arr(vec![s("Data")])),
                        ("CapacityInUse", JsonValue::UInt(123)),
                        ("MountPoint", s("/System/Volumes/Data")),
                    ])]),
                ),
            ]),
        ]),
    )]);
    let details = oxidisk::meta::apfs_list_volumes_details(&listing, "disk3").unwrap();
    assert_eq!(
        oxidisk::json::to_json(&details),
        "{\"containerIdentifier\":\"disk3\",\"containerUuid\":\"abc\",\"capacity\":1000,\
         \"capacityFree\":600,\"capacityUsed\":400,\"volumes\":[{\"identifier\":\"disk3s1\",\
         \"name\":\"Data\",\"roles\":[\"Data\"],\"size\":123,\"used\":123,\
         \"mountPoint\":\"/System/Volumes/Data\"}]}"
    );
    assert_eq!(
        oxidisk::meta::apfs_list_volumes_details(&listing, "disk9").err().unwrap(),
        "APFS container not found"
    );
    let empty = obj(vec![]);
    assert_eq!(
        oxidisk::meta::apfs_list_volumes_details(&empty, "disk3").err().unwrap(),
        "Invalid APFS plist structure"
    );
}

#[test]
fn max_end_takes_nearest_follower() {
    assert_eq!(disk_max_end(100, &vec![0, 40, 30]), 30);
    assert_eq!(disk_max_end(100, &vec![0]), 100);
    assert_eq!(disk_max_end(100, &vec![]), 100);
}

#[test]
fn bounds_between_neighbours() {
    let mib = 1u64 << 20;
    let entries = vec![
        BoundsEntry { offset: 10 * mib, size: 10 * mib, current: false },
        BoundsEntry { offset: 30 * mib, size: 5 * mib, current: true },
        BoundsEntry { offset: 50 * mib, size: 8 * mib, current: false },
    ];
    let (min_start, max_start) = partition_bounds_for_disk(&entries, 5 * mib);
    assert_eq!(min_start, 20 * mib);
    assert_eq!(max_start, 45 * mib);
}

#[test]
fn protection_rules() {
    let roles = vec!["Preboot".to_string()];
    let (blocked, reason) = partition_protection(&roles, true);
    assert!(blocked);
    assert_eq!(reason.as_deref(), Some("System-Volume (SIP geschuetzt)"));
    // an external volume is never protected
    let (blocked, reason) = partition_protection(&roles, false);
    assert!(!blocked);
    assert!(reason.is_none());
    let none = vec!["Backup".to_string()];
    assert!(!partition_protection(&none, true).0);
    assert!(is_boot_roles(&vec!["Data".to_string()]));
    assert!(!is_boot_roles(&vec!["VM".to_string()]));
}

#[test]
fn battery_parse_discharging() {
    let text = "Now drawing from 'Battery Power'\n -InternalBattery-0 (id=123)\t25%; \
                discharging; 3:10 remaining present: true";
    let b = parse_battery_status(text);
    assert!(b.is_laptop);
    assert!(!b.on_ac);
    assert_eq!(b.percent, Some(25));
}

#[test]
fn battery_parse_mains() {
    let text = "Now drawing from 'AC Power'\n -InternalBattery-0 (id=123)\t95%; charging";
    let b = parse_battery_status(text);
    assert!(b.is_laptop);
    assert!(b.on_ac);
    assert_eq!(b.percent, Some(95));
}

#[test]
fn battery_parse_desktop() {
    let b = parse_battery_status("Now drawing from 'AC Power'\nNo batteries available.");
    assert!(!b.is_laptop);
    assert!(b.on_ac);
    assert_eq!(b.percent, None);
}

#[test]
fn battery_rule_blocks_low_charge() {
    let low = BatteryStatus { is_laptop: true, on_ac: false, percent: Some(29) };
    assert!(battery_blocks(&Some(low)));
    let charged = BatteryStatus { is_laptop: true, on_ac: false, percent: Some(30) };
    assert!(!battery_blocks(&Some(charged)));
    let plugged = BatteryStatus { is_laptop: true, on_ac: true, percent: Some(5) };
    assert!(!battery_blocks(&Some(plugged)));
    assert!(!battery_blocks(&None));
}

#[test]
fn lsof_parse_pairs_and_dedups() {
    let lines: Vec<String> = vec![
        "p4242".to_string(),
        "cvim".to_string(),
        "n/Volumes/DATA/file".to_string(),
        "p4242".to_string(),
        "cvim".to_string(),
        "p77".to_string(),
        "csh".to_string(),
    ];
    let procs = parse_lsof_lines(&lines);
    assert_eq!(procs.len(), 2);
    assert_eq!(procs[0].pid, 4242);
    assert_eq!(procs[0].command, "vim");
    assert_eq!(procs[1].pid, 77);
    assert_eq!(procs[1].command, "sh");
}

#[test]
fn required_sidecars_by_operation() {
    assert_eq!(required_sidecar_names("move", "ext4"), vec!["sgdisk"]);
    assert_eq!(required_sidecar_names("resize", "ext4"), vec!["sgdisk", "resize2fs"]);
    assert_eq!(required_sidecar_names("resize", "ntfs"), vec!["sgdisk", "ntfsresize"]);
    assert_eq!(required_sidecar_names("wipe", "ext4"), vec!["mkfs.ext4"]);
    assert_eq!(required_sidecar_names("format", "swap"), vec!["mkswap"]);
    assert_eq!(required_sidecar_names("wipe", "apfs"), Vec::<String>::new());
    assert_eq!(required_sidecar_names("check", "ext4"), Vec::<String>::new());
}

#[test]
fn size_rule_uses_five_percent_buffer() {
    // used 100 bytes: the floor is 105
    assert!(size_blocks(104, Some(100)));
    assert!(!size_blocks(105, Some(100)));
    // ceil(101 * 1.05) = ceil(106.05) = 107
    assert!(size_blocks(106, Some(101)));
    assert!(!size_blocks(107, Some(101)));
    assert!(!size_blocks(0, None));
}
