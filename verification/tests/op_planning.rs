//! The top-level operation planning: schemes, routes, quiescence,
//! label and UUID dispatch, checks, copy and APFS commands.

use oxidisk::blockops::Action;
use oxidisk::json::JsonValue;
use oxidisk::ops::{apfs_add_volume_args, apfs_delete_volume_args, check_partition_command,
    copy_seed_size_arg, copy_supported, copy_uuid_refresh, erase_disk_args, force_unmount_plan,
    format_route, linux_mkfs_command, needs_swapoff, partition_disk_args, plan_set_label_uuid,
    resolve_scheme, sync_kernel_table_plan, temp_label, FormatRoute, LabelStep, UuidRefresh};
use oxidisk::preflight::quick_fs_check_command;
use oxidisk::requests::{ok_or_message, read_target_identifier, HelperResponse,
    WipeDeviceRequest};

#[test]
fn scheme_resolution() {
    assert_eq!(resolve_scheme("GPT"), Ok("GPT".to_string()));
    assert_eq!(resolve_scheme("gpt"), Ok("GPT".to_string()));
    assert_eq!(resolve_scheme("Mbr"), Ok("MBR".to_string()));
    assert_eq!(resolve_scheme("apm"), Err("Unsupported table type: apm".to_string()));
}

#[test]
fn format_routes() {
    match format_route("ExFAT").unwrap() {
        FormatRoute::Native(name) => assert_eq!(name, "ExFAT"),
        _ => panic!("exfat is native"),
    }
    match format_route("FAT32").unwrap() {
        FormatRoute::Native(name) => assert_eq!(name, "MS-DOS"),
        _ => panic!("fat32 maps to MS-DOS"),
    }
    match format_route("EXT4").unwrap() {
        FormatRoute::Linux(fs) => assert_eq!(fs, "ext4"),
        _ => panic!("ext4 takes the Linux route"),
    }
    assert_eq!(
        format_route("zfs").err().unwrap(),
        "Unsupported format type: zfs"
    );
}

#[test]
fn wipe_native_command() {
    // the native erase of a wipe request
    let args = erase_disk_args("APFS", "DATA", "GPT", "/dev/disk4");
    assert_eq!(args, vec!["eraseDisk", "APFS", "DATA", "GPT", "/dev/disk4"]);
}

#[test]
fn wipe_linux_route_seeds_then_formats() {
    // the seed partition of the Linux route carries a throwaway label
    let label = temp_label("OXI_TMP_", 1700000000);
    assert_eq!(label, "OXI_TMP_1700000000");
    let seed = erase_disk_args("MS-DOS", &label, "GPT", "/dev/disk4");
    assert_eq!(seed[1], "MS-DOS");
    // then the driver formats the located partition
    let (bin, args) = linux_mkfs_command("ext4", "/dev/disk4s1", "DATA").unwrap();
    assert_eq!(bin, "mkfs.ext4");
    assert_eq!(args, vec!["-F", "-L", "DATA", "/dev/disk4s1"]);
}

#[test]
fn create_table_partitions_whole_disk() {
    let args = partition_disk_args("/dev/disk4", "GPT");
    assert_eq!(
        args,
        vec!["partitionDisk", "/dev/disk4", "1", "GPT", "free", "%noformat%", "100%"]
    );
}

#[test]
fn quiescence_unmount_cascade() {
    let (volume, disk) = force_unmount_plan("/dev/disk4s1");
    assert_eq!(volume, vec!["unmount", "force", "/dev/disk4s1"]);
    assert_eq!(disk, vec!["unmountDisk", "force", "/dev/disk4"]);
    // a whole disk unmounts itself
    let (_, disk) = force_unmount_plan("/dev/disk4");
    assert_eq!(disk, vec!["unmountDisk", "force", "/dev/disk4"]);
    let (repair, order) = sync_kernel_table_plan("/dev/disk4s1");
    assert_eq!(repair, vec!["quiet", "repairDisk", "/dev/disk4"]);
    assert_eq!(order, vec!["updateDefaultPartitionOrder", "/dev/disk4"]);
    assert!(needs_swapoff("swap"));
    assert!(!needs_swapoff("ext4"));
}

#[test]
fn label_uuid_dispatch_apfs() {
    let steps = plan_set_label_uuid(
        "/dev/disk3s1",
        "apfs",
        Some(&"NEW".to_string()),
        Some(&"random".to_string()),
    )
    .unwrap();
    assert_eq!(steps.len(), 2);
    match &steps[0] {
        LabelStep::Diskutil(args) => {
            assert_eq!(args, &vec!["renameVolume", "/dev/disk3s1", "NEW"]);
        },
        _ => panic!("apfs renames through the host tool"),
    }
    match &steps[1] {
        LabelStep::Diskutil(args) => {
            assert_eq!(args, &vec!["apfs", "changeVolumeUUID", "/dev/disk3s1", "random"]);
        },
        _ => panic!("apfs changes its UUID through the host tool"),
    }
}

#[test]
fn label_uuid_dispatch_linux() {
    let steps = plan_set_label_uuid(
        "/dev/disk4s1",
        "ext4",
        Some(&"DATA".to_string()),
        Some(&"01234567-89ab-cdef-0123-456789abcdef".to_string()),
    )
    .unwrap();
    assert_eq!(steps.len(), 2);
    match &steps[0] {
        LabelStep::Sidecar(bin, args) => {
            assert_eq!(bin, "e2label");
            assert_eq!(args, &vec!["/dev/disk4s1", "DATA"]);
        },
        _ => panic!("ext4 labels through its sidecar"),
    }
    // a malformed UUID fails before anything runs
    assert_eq!(
        plan_set_label_uuid("/dev/disk4s1", "ext4", None, Some(&"0-0-0-0-0".to_string()))
            .err().unwrap(),
        "Invalid UUID format"
    );
    // an absent capability is an explicit error
    assert_eq!(
        plan_set_label_uuid("/dev/disk4s1", "ntfs", None, Some(&"random".to_string()))
            .err().unwrap(),
        "UUID change not supported"
    );
    assert_eq!(
        plan_set_label_uuid("/dev/disk4s1", "f2fs", Some(&"X".to_string()), None).err().unwrap(),
        "Label change not supported"
    );
}

#[test]
fn label_uuid_dispatch_fat_and_errors() {
    let steps = plan_set_label_uuid("/dev/disk4s1", "fat32", Some(&"NEW".to_string()), None)
        .unwrap();
    assert_eq!(steps.len(), 1);
    assert_eq!(
        plan_set_label_uuid("/dev/disk4s1", "exfat", None, Some(&"random".to_string()))
            .err().unwrap(),
        "FAT/ExFAT UUID change is not supported"
    );
    assert_eq!(
        plan_set_label_uuid("/dev/disk4s1", "fat32", None, None).err().unwrap(),
        "No label or UUID provided"
    );
    assert_eq!(
        plan_set_label_uuid("/dev/disk4s1", "unknown", Some(&"X".to_string()), None)
            .err().unwrap(),
        "Unsupported filesystem for label/UUID"
    );
}

#[test]
fn check_commands() {
    match check_partition_command("/dev/disk4s1", "ext4", false).unwrap() {
        Action::Sidecar { binary, args } => {
            assert_eq!(binary, "e2fsck");
            assert_eq!(args, vec!["-p", "-f", "/dev/disk4s1"]);
        },
        _ => panic!("ext4 checks with e2fsck"),
    }
    match check_partition_command("/dev/disk4s1", "apfs", true).unwrap() {
        Action::Diskutil { args } => assert_eq!(args, vec!["repairVolume", "/dev/disk4s1"]),
        _ => panic!("apfs repairs through the host tool"),
    }
    match check_partition_command("/dev/disk4s1", "apfs", false).unwrap() {
        Action::Diskutil { args } => assert_eq!(args, vec!["verifyVolume", "/dev/disk4s1"]),
        _ => panic!("apfs verifies through the host tool"),
    }
    assert_eq!(
        check_partition_command("/dev/disk4s1", "swap", false).err().unwrap(),
        "Unsupported filesystem for check"
    );
}

#[test]
fn quick_check_is_read_only() {
    match quick_fs_check_command("/dev/disk4s1", "ext4").unwrap() {
        Action::Sidecar { binary, args } => {
            assert_eq!(binary, "e2fsck");
            assert_eq!(args, vec!["-n", "-f", "/dev/disk4s1"]);
        },
        _ => panic!("the preflight check must not write"),
    }
    match quick_fs_check_command("/dev/disk4s1", "ntfs").unwrap() {
        Action::Sidecar { binary, args } => {
            assert_eq!(binary, "ntfsfix");
            assert_eq!(args, vec!["-n", "/dev/disk4s1"]);
        },
        _ => panic!("the preflight check must not write"),
    }
    assert!(quick_fs_check_command("/dev/disk4s1", "swap").is_err());
}

#[test]
fn copy_rules() {
    assert!(copy_supported("ext4"));
    assert!(copy_supported("fat32"));
    assert!(!copy_supported("apfs"));
    // the seed covers the source, rounded up to whole MiB
    assert_eq!(copy_seed_size_arg(1), "1M");
    assert_eq!(copy_seed_size_arg(1 << 20), "1M");
    assert_eq!(copy_seed_size_arg((1 << 20) + 1), "2M");
    assert_eq!(copy_seed_size_arg(0), "1M");
    match copy_uuid_refresh("/dev/disk5s2", "ext4").unwrap() {
        UuidRefresh::Run(Action::Sidecar { binary, args }) => {
            assert_eq!(binary, "tune2fs");
            assert_eq!(args, vec!["-U", "random", "/dev/disk5s2"]);
        },
        _ => panic!("ext4 refreshes its UUID"),
    }
    match copy_uuid_refresh("/dev/disk5s2", "ntfs").unwrap() {
        UuidRefresh::Run(Action::Sidecar { binary, args }) => {
            assert_eq!(binary, "ntfslabel");
            assert_eq!(args, vec!["--new-serial", "/dev/disk5s2"]);
        },
        _ => panic!("ntfs refreshes its serial"),
    }
    match copy_uuid_refresh("/dev/disk5s2", "exfat").unwrap() {
        UuidRefresh::Warn(w) => assert_eq!(w, "UUID refresh not supported for FAT/ExFAT"),
        _ => panic!("the FAT family only warns"),
    }
}

#[test]
fn apfs_volume_commands() {
    assert_eq!(
        apfs_add_volume_args("/dev/disk3", "Extra", ""),
        vec!["apfs", "addVolume", "/dev/disk3", "APFS", "Extra"]
    );
    assert_eq!(
        apfs_add_volume_args("/dev/disk3", "Extra", "None"),
        vec!["apfs", "addVolume", "/dev/disk3", "APFS", "Extra"]
    );
    assert_eq!(
        apfs_add_volume_args("/dev/disk3", "Extra", "Data"),
        vec!["apfs", "addVolume", "/dev/disk3", "APFS", "Extra", "-role", "Data"]
    );
    assert_eq!(
        apfs_delete_volume_args("/dev/disk3s2"),
        vec!["apfs", "deleteVolume", "/dev/disk3s2"]
    );
}

#[test]
fn request_extraction() {
    let payload = JsonValue::Obj(vec![
        ("deviceIdentifier".to_string(), JsonValue::Str("disk4".to_string())),
        ("tableType".to_string(), JsonValue::Str("GPT".to_string())),
        ("formatType".to_string(), JsonValue::Str("ext4".to_string())),
        ("label".to_string(), JsonValue::Str("DATA".to_string())),
    ]);
    let q = WipeDeviceRequest::from_payload(&payload).unwrap();
    assert_eq!(q.device_identifier, "disk4");
    assert_eq!(q.table_type, "GPT");
    assert_eq!(q.format_type, "ext4");
    assert_eq!(q.label, "DATA");
    let missing = JsonValue::Obj(vec![(
        "deviceIdentifier".to_string(),
        JsonValue::Str("disk4".to_string()),
    )]);
    assert_eq!(
        WipeDeviceRequest::from_payload(&missing).err().unwrap(),
        "Missing field: tableType"
    );
    // the preflight target prefers the partition identifier
    let both = JsonValue::Obj(vec![
        ("deviceIdentifier".to_string(), JsonValue::Str("disk4".to_string())),
        ("partitionIdentifier".to_string(), JsonValue::Str("disk4s1".to_string())),
    ]);
    assert_eq!(read_target_identifier(&both), Ok("disk4s1".to_string()));
    let neither = JsonValue::Obj(vec![]);
    assert_eq!(
        read_target_identifier(&neither),
        Err("Missing device identifier".to_string())
    );
}

#[test]
fn response_collapse() {
    let ok = HelperResponse { ok: true, message: None, details: None };
    assert!(ok_or_message(ok).is_ok());
    let failed = HelperResponse { ok: false, message: Some("boom".to_string()), details: None };
    assert_eq!(ok_or_message(failed).err().unwrap(), "boom");
    let silent = HelperResponse { ok: false, message: None, details: None };
    assert_eq!(ok_or_message(silent).err().unwrap(), "Helper reported failure.");
}
