//! The geometry planners: resize, move, the copy schedule, and the
//! type-code step.

use oxidisk::blockops::{plan_move_partition, plan_resize_partition, set_partition_typecode,
    Action, TypecodeDecision};
use oxidisk::copyplan::copy_chunks;
use oxidisk::geometry::PartitionInfo;

const GIB: u64 = 1 << 30;
const MIB: u64 = 1 << 20;

fn info(offset: u64, size: u64, max_end: u64) -> PartitionInfo {
    PartitionInfo {
        device: "/dev/disk4s1".to_string(),
        disk: "/dev/disk4".to_string(),
        partition_offset: offset,
        partition_size: size,
        block_size: 512,
        min_start: offset,
        max_end,
    }
}

#[test]
fn resize_shrink_orders_fs_before_table() {
    // a 4 GiB partition at offset 1 MiB shrunk to 2 GiB
    let i = info(MIB, 4 * GIB, 100 * GIB);
    let plan = plan_resize_partition(&i, "ext4", "2G", true).unwrap();
    assert_eq!(plan.len(), 5);
    match &plan[0] {
        Action::Progress { phase, percent, total, message } => {
            assert_eq!(phase, "resize");
            assert_eq!(*percent, 10);
            assert_eq!(*total, 100);
            assert_eq!(message, "Shrink filesystem");
        },
        _ => panic!("expected a progress mark"),
    }
    match &plan[1] {
        Action::Sidecar { binary, args } => {
            assert_eq!(binary, "resize2fs");
            assert_eq!(args, &vec!["/dev/disk4s1".to_string(), "2048M".to_string()]);
        },
        _ => panic!("expected the filesystem resize"),
    }
    match &plan[2] {
        Action::Progress { percent, .. } => assert_eq!(*percent, 60),
        _ => panic!("expected a progress mark"),
    }
    match &plan[3] {
        Action::Sidecar { binary, args } => {
            assert_eq!(binary, "sgdisk");
            // start sector 1 MiB / 512; end sector (1 MiB + 2 GiB)/512 - 1
            let end_sector = (MIB + 2 * GIB) / 512 - 1;
            assert_eq!(
                args,
                &vec![
                    "--delete".to_string(),
                    "1".to_string(),
                    "--new".to_string(),
                    format!("1:{}:{}", MIB / 512, end_sector),
                    "/dev/disk4".to_string(),
                ]
            );
        },
        _ => panic!("expected the table rewrite"),
    }
    match &plan[4] {
        Action::Progress { percent, message, .. } => {
            assert_eq!(*percent, 100);
            assert_eq!(message, "Resize complete");
        },
        _ => panic!("expected the final progress mark"),
    }
}

#[test]
fn resize_grow_orders_table_before_fs() {
    let i = info(MIB, 2 * GIB, 100 * GIB);
    let plan = plan_resize_partition(&i, "ntfs", "4G", true).unwrap();
    assert_eq!(plan.len(), 5);
    match &plan[0] {
        Action::Progress { percent, .. } => assert_eq!(*percent, 40),
        _ => panic!("expected a progress mark"),
    }
    match &plan[1] {
        Action::Sidecar { binary, .. } => assert_eq!(binary, "sgdisk"),
        _ => panic!("expected the table rewrite first"),
    }
    match &plan[3] {
        Action::Sidecar { binary, args } => {
            assert_eq!(binary, "ntfsresize");
            assert_eq!(args, &vec!["/dev/disk4s1".to_string()]);
        },
        _ => panic!("expected the filesystem grow"),
    }
}

#[test]
fn resize_rejects_oversize() {
    let i = info(MIB, 2 * GIB, 3 * GIB);
    let r = plan_resize_partition(&i, "ext4", "4G", true);
    assert_eq!(r.err().unwrap(), "New size exceeds available space");
}

#[test]
fn resize_requires_sgdisk() {
    let i = info(MIB, 2 * GIB, 100 * GIB);
    let r = plan_resize_partition(&i, "ext4", "1G", false);
    assert_eq!(r.err().unwrap(), "sgdisk is required for ext4/ntfs resize");
}

#[test]
fn resize_propagates_size_errors() {
    let i = info(MIB, 2 * GIB, 100 * GIB);
    assert_eq!(plan_resize_partition(&i, "ext4", "", true).err().unwrap(), "Invalid size");
    assert_eq!(
        plan_resize_partition(&i, "ext4", "3xyz", true).err().unwrap(),
        "Invalid size suffix"
    );
}

#[test]
fn move_overlap_is_rejected() {
    // a partition at 10 GiB of 4 GiB; 11 GiB lands inside it
    let i = info(10 * GIB, 4 * GIB, 100 * GIB);
    let r = plan_move_partition(&i, 11 * GIB, true, 7);
    assert_eq!(r.err().unwrap(), "Move would overlap existing data");
}

#[test]
fn move_below_current_offset_is_rejected() {
    let i = info(10 * GIB, 4 * GIB, 100 * GIB);
    let r = plan_move_partition(&i, 8 * GIB, true, 7);
    assert_eq!(r.err().unwrap(), "Invalid target start");
}

#[test]
fn move_beyond_disk_is_rejected() {
    let i = info(10 * GIB, 4 * GIB, 16 * GIB);
    let r = plan_move_partition(&i, 15 * GIB, true, 7);
    assert_eq!(r.err().unwrap(), "Move exceeds available space");
}

#[test]
fn move_requires_sgdisk() {
    let i = info(10 * GIB, 4 * GIB, 100 * GIB);
    let r = plan_move_partition(&i, 20 * GIB, false, 7);
    assert_eq!(r.err().unwrap(), "sgdisk is required for move");
}

#[test]
fn move_plan_journals_first_and_clears_last() {
    let i = info(10 * GIB, 4 * GIB, 100 * GIB);
    let plan = plan_move_partition(&i, 20 * GIB, true, 1234).unwrap();
    assert_eq!(plan.len(), 4);
    match &plan[0] {
        Action::WriteJournal { record } => {
            assert_eq!(record.operation, "move");
            assert_eq!(record.device, "/dev/disk4s1");
            assert_eq!(record.disk, "/dev/disk4");
            assert_eq!(record.src_offset, 10 * GIB);
            assert_eq!(record.dst_offset, 20 * GIB);
            assert_eq!(record.size, 4 * GIB);
            assert_eq!(record.block_size, 512);
            assert_eq!(record.last_copied, 0);
            assert_eq!(record.updated_at, 1234);
        },
        _ => panic!("the journal must be written before any byte moves"),
    }
    match &plan[1] {
        Action::CopyBlocks { disk, src_offset, dst_offset, size, journal } => {
            assert_eq!(disk, "/dev/disk4");
            assert_eq!(*src_offset, 10 * GIB);
            assert_eq!(*dst_offset, 20 * GIB);
            assert_eq!(*size, 4 * GIB);
            assert!(*journal);
        },
        _ => panic!("the copy follows the journal"),
    }
    match &plan[2] {
        Action::Sidecar { binary, args } => {
            assert_eq!(binary, "sgdisk");
            let start_sector = 20 * GIB / 512;
            let end_sector = (20 * GIB + 4 * GIB) / 512 - 1;
            assert_eq!(args[3], format!("1:{}:{}", start_sector, end_sector));
        },
        _ => panic!("the table rewrite follows the copy"),
    }
    assert!(matches!(plan[3], Action::ClearJournal));
}

#[test]
fn backward_chunks_read_high_offsets_first() {
    // same-disk move upward: 10 MiB moved from 0 to 6 MiB
    let chunks = copy_chunks(0, 6 * MIB, 10 * MIB);
    assert_eq!(chunks.len(), 3);
    assert_eq!(chunks[0].read_pos, 6 * MIB);
    assert_eq!(chunks[0].write_pos, 12 * MIB);
    assert_eq!(chunks[0].len, 4 * MIB);
    assert_eq!(chunks[1].read_pos, 2 * MIB);
    assert_eq!(chunks[1].len, 4 * MIB);
    assert_eq!(chunks[2].read_pos, 0);
    assert_eq!(chunks[2].len, 2 * MIB);
    // no chunk writes over a region another chunk still has to read
    for k in 0..chunks.len() {
        for j in (k + 1)..chunks.len() {
            assert!(chunks[j].read_pos + chunks[j].len <= chunks[k].write_pos);
        }
    }
}

#[test]
fn forward_chunks_walk_front_to_back() {
    let chunks = copy_chunks(6 * MIB, 0, 10 * MIB);
    assert_eq!(chunks.len(), 3);
    assert_eq!(chunks[0].read_pos, 6 * MIB);
    assert_eq!(chunks[0].write_pos, 0);
    assert_eq!(chunks[0].len, 4 * MIB);
    assert_eq!(chunks[2].len, 2 * MIB);
    assert_eq!(chunks[2].read_pos, 6 * MIB + 8 * MIB);
}

#[test]
fn chunk_progress_marks() {
    // 104 MiB forward: progress crosses the 50 MiB step twice, and the
    // last chunk always reports
    let chunks = copy_chunks(0, 0, 104 * MIB);
    assert_eq!(chunks.len(), 26);
    let emitted: Vec<usize> =
        (0..chunks.len()).filter(|&k| chunks[k].emit).collect();
    // 52 MiB after chunk 12, 100 MiB after chunk 24, and the tail
    assert_eq!(emitted, vec![12, 24, 25]);
    assert_eq!(chunks[12].copied_after, 52 * MIB);
    assert_eq!(chunks[12].percent, 50);
    assert_eq!(chunks[25].percent, 100);
}

#[test]
fn typecode_step_decides() {
    match set_partition_typecode("/dev/disk4s1", "ext4", true).unwrap() {
        TypecodeDecision::Run(args) => {
            assert_eq!(
                args,
                vec!["--typecode".to_string(), "1:8300".to_string(), "/dev/disk4".to_string()]
            );
        },
        _ => panic!("ext4 rewrites its type code"),
    }
    match set_partition_typecode("/dev/disk4s2", "ntfs", false).unwrap() {
        TypecodeDecision::Warning(w) => {
            assert_eq!(w, "sgdisk not found; GPT typecode not updated");
        },
        _ => panic!("a missing sgdisk is a warning"),
    }
    match set_partition_typecode("/dev/disk4s2", "apfs", true).unwrap() {
        TypecodeDecision::NotNeeded => {},
        _ => panic!("the native family keeps its type"),
    }
    assert_eq!(
        set_partition_typecode("/dev/disk4", "ext4", true).err().unwrap(),
        "Invalid partition identifier"
    );
}
