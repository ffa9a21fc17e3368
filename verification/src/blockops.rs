//! The geometry-changing operations: resize, move, and the GPT type
//! code rewrite.  Each planner validates a request against the
//! partition snapshot and produces the ordered actions to perform; the
//! surrounding binary executes them one by one, stopping at the first
//! failure.

use vstd::prelude::*;

use crate::device::{partition_number, partition_number_spec};
use crate::journal::{JournalRecord, JournalRecordV};
use crate::size::{align_mib, align_mib_spec, num_valid, parse_size_bytes, parse_size_spec,
    size_num_part};
use crate::strutil::{dec_str, str_eq, u64_to_string};

verus! {

/// One step of an operation plan.
pub enum Action {
    /// Emit a progress record for the phase.
    Progress { phase: String, percent: u64, total: u64, message: String },
    /// Run a sidecar binary, capturing its output.
    Sidecar { binary: String, args: Vec<String> },
    /// Run the host partition tool.
    Diskutil { args: Vec<String> },
    /// Write the crash-journal record.
    WriteJournal { record: JournalRecord },
    /// Run the direction-aware block mover on one disk.
    CopyBlocks { disk: String, src_offset: u64, dst_offset: u64, size: u64, journal: bool },
    /// Remove the crash-journal file.
    ClearJournal,
}

/// The mathematical shape of one step.
pub enum ActionV {
    Progress { phase: Seq<char>, percent: u64, total: u64, message: Seq<char> },
    Sidecar { binary: Seq<char>, args: Seq<Seq<char>> },
    Diskutil { args: Seq<Seq<char>> },
    WriteJournal { record: JournalRecordV },
    CopyBlocks { disk: Seq<char>, src_offset: u64, dst_offset: u64, size: u64, journal: bool },
    ClearJournal,
}

impl View for Action {
    type V = ActionV;

    open spec fn view(&self) -> ActionV {
        match self {
            Action::Progress { phase, percent, total, message } => ActionV::Progress {
                phase: phase@,
                percent: *percent,
                total: *total,
                message: message@,
            },
            Action::Sidecar { binary, args } => ActionV::Sidecar {
                binary: binary@,
                args: args.deep_view(),
            },
            Action::Diskutil { args } => ActionV::Diskutil { args: args.deep_view() },
            Action::WriteJournal { record } => ActionV::WriteJournal { record: record@ },
            Action::CopyBlocks { disk, src_offset, dst_offset, size, journal } => {
                ActionV::CopyBlocks {
                    disk: disk@,
                    src_offset: *src_offset,
                    dst_offset: *dst_offset,
                    size: *size,
                    journal: *journal,
                }
            },
            Action::ClearJournal => ActionV::ClearJournal,
        }
    }
}

/// The shapes of the steps of a plan.
pub open spec fn plan_view(s: Seq<Action>) -> Seq<ActionV> {
    Seq::new(s.len(), |i: int| s[i]@)
}

/// The argument list of an sgdisk partition-entry rewrite: delete the
/// entry, then recreate it over the given sector range.
pub open spec fn sgdisk_rewrite_argv(
    part: u32,
    start_sector: u64,
    end_sector: u64,
    disk: Seq<char>,
) -> Seq<Seq<char>> {
    seq![
        "--delete"@,
        dec_str(part as nat),
        "--new"@,
        dec_str(part as nat) + seq![':'] + dec_str(start_sector as nat) + seq![':'] + dec_str(
            end_sector as nat,
        ),
        disk,
    ]
}

/// Build the sgdisk rewrite arguments.
pub fn sgdisk_rewrite_args(part: u32, start_sector: u64, end_sector: u64, disk: &str) -> (r: Vec<
    String,
>)
    ensures
        r.deep_view() == sgdisk_rewrite_argv(part, start_sector, end_sector, disk@),
{
    let pn = u64_to_string(part as u64);
    let mut entry = u64_to_string(part as u64);
    crate::strutil::push_char(&mut entry, ':');
    let ss = u64_to_string(start_sector);
    entry.append(ss.as_str());
    crate::strutil::push_char(&mut entry, ':');
    let es = u64_to_string(end_sector);
    entry.append(es.as_str());
    proof {
        assert(entry@ =~= dec_str(part as nat) + seq![':'] + dec_str(start_sector as nat)
            + seq![':'] + dec_str(end_sector as nat));
    }
    let r = vec!["--delete".to_owned(), pn, "--new".to_owned(), entry, disk.to_owned()];
    proof {
        assert(r.deep_view() =~= sgdisk_rewrite_argv(part, start_sector, end_sector, disk@));
    }
    r
}

/// What the planner decides for a move request: the validation rules of
/// the move operation, and on success the four steps in their fixed
/// order — journal first, then the block copy, then the table rewrite,
/// and the journal cleared last.
pub open spec fn move_plan_spec(
    info: crate::geometry::PartitionInfoV,
    new_start: u64,
    sgdisk_found: bool,
    now: u64,
) -> Result<Seq<ActionV>, Seq<char>> {
    let aligned = align_mib_spec(new_start);
    let size = info.partition_size;
    let old_start = info.partition_offset;
    let old_end = old_start + size;
    let new_end = aligned + size;
    if !sgdisk_found {
        Err("sgdisk is required for move"@)
    } else if aligned < info.min_start || aligned >= info.max_end {
        Err("Invalid target start"@)
    } else if new_end > info.max_end {
        Err("Move exceeds available space"@)
    } else if aligned < old_end && new_end > old_start && aligned != old_start {
        Err("Move would overlap existing data"@)
    } else if partition_number_spec(info.device) is None {
        Err("Invalid partition"@)
    } else {
        let part = partition_number_spec(info.device)->0;
        Ok(
            seq![
                ActionV::WriteJournal {
                    record: JournalRecordV {
                        operation: "move"@,
                        device: info.device,
                        disk: info.disk,
                        src_offset: old_start,
                        dst_offset: aligned,
                        size,
                        block_size: info.block_size,
                        last_copied: 0,
                        updated_at: now,
                    },
                },
                ActionV::CopyBlocks {
                    disk: info.disk,
                    src_offset: old_start,
                    dst_offset: aligned,
                    size,
                    journal: true,
                },
                ActionV::Sidecar {
                    binary: "sgdisk"@,
                    args: sgdisk_rewrite_argv(
                        part,
                        (aligned / info.block_size) as u64,
                        (new_end / (info.block_size as int) - 1) as u64,
                        info.disk,
                    ),
                },
                ActionV::ClearJournal,
            ],
        )
    }
}

/// Plan a move: validate the aligned target start against the legal
/// range and the overlap rule, then schedule journal, copy, table
/// rewrite and journal clearing.
pub fn plan_move_partition(
    info: &crate::geometry::PartitionInfo,
    new_start: u64,
    sgdisk_found: bool,
    now: u64,
) -> (r: Result<Vec<Action>, String>)
    requires
        info@.wf(),
        info@.min_start == info@.partition_offset,
        info@.partition_offset >= 0x100000,
    ensures
        match r {
            Ok(plan) => move_plan_spec(info@, new_start, sgdisk_found, now) == Ok::<_, Seq<char>>(
                plan_view(plan@),
            ),
            Err(e) => move_plan_spec(info@, new_start, sgdisk_found, now) == Err::<Seq<ActionV>,
                _,
            >(e@),
        },
{
    if !sgdisk_found {
        return Err(String::from_str("sgdisk is required for move"));
    }
    let aligned = align_mib(new_start);
    let size = info.partition_size;
    let old_start = info.partition_offset;
    if aligned < info.min_start || aligned >= info.max_end {
        return Err(String::from_str("Invalid target start"));
    }
    if size > info.max_end || aligned > info.max_end - size {
        return Err(String::from_str("Move exceeds available space"));
    }
    let old_end = old_start + size;
    let new_end = aligned + size;
    if aligned < old_end && new_end > old_start && aligned != old_start {
        return Err(String::from_str("Move would overlap existing data"));
    }
    let part: u32 = match partition_number(info.device.as_str()) {
        Some(p) => p,
        None => {
            return Err(String::from_str("Invalid partition"));
        },
    };
    let record = crate::journal::new_move_record(
        info.device.as_str(),
        info.disk.as_str(),
        old_start,
        aligned,
        size,
        info.block_size,
        now,
    );
    proof {
        assert(aligned >= 0x100000);
        assert(new_end >= 0x100000);
        assert(info@.block_size <= 0x100000);
        vstd::arithmetic::div_mod::lemma_div_is_ordered(
            info@.block_size as int,
            new_end as int,
            info@.block_size as int,
        );
        assert(new_end as int / info@.block_size as int >= 1) by {
            vstd::arithmetic::div_mod::lemma_div_by_self(info@.block_size as int);
        }
    }
    let start_sector = aligned / info.block_size;
    let end_sector = new_end / info.block_size - 1;
    let args = sgdisk_rewrite_args(part, start_sector, end_sector, info.disk.as_str());
    let plan: Vec<Action> = vec![
        Action::WriteJournal { record },
        Action::CopyBlocks {
            disk: info.disk.clone(),
            src_offset: old_start,
            dst_offset: aligned,
            size,
            journal: true,
        },
        Action::Sidecar { binary: String::from_str("sgdisk"), args },
        Action::ClearJournal,
    ];
    proof {
        assert(plan_view(plan@) =~= move_plan_spec(info@, new_start, sgdisk_found, now)->Ok_0);
    }
    Ok(plan)
}

/// Any aligned target inside the open window around the current offset,
/// other than the offset itself, is rejected: a move may not overlap
/// the data it moves.
pub proof fn lemma_move_overlap_rejected(
    info: crate::geometry::PartitionInfoV,
    new_start: u64,
    sgdisk_found: bool,
    now: u64,
)
    requires
        info.min_start == info.partition_offset,
        info.partition_offset - info.partition_size < align_mib_spec(new_start) < info
            .partition_offset + info.partition_size,
        align_mib_spec(new_start) != info.partition_offset,
    ensures
        move_plan_spec(info, new_start, sgdisk_found, now) is Err,
{
}

/// The journal lifecycle of a successful move plan: the journal record
/// is written first with nothing copied, the copy updates it, the table
/// rewrite follows the copy, and the journal is cleared only by the
/// very last step.
pub proof fn lemma_move_journal_lifecycle(
    info: crate::geometry::PartitionInfoV,
    new_start: u64,
    sgdisk_found: bool,
    now: u64,
)
    requires
        move_plan_spec(info, new_start, sgdisk_found, now) is Ok,
    ensures
        ({
            let plan = move_plan_spec(info, new_start, sgdisk_found, now)->Ok_0;
            &&& plan.len() == 4
            &&& plan[0] matches ActionV::WriteJournal { record } && record.last_copied == 0
                && record.operation == "move"@
            &&& plan[1] matches ActionV::CopyBlocks { journal, .. } && journal
            &&& plan[2] is Sidecar
            &&& plan[3] is ClearJournal
            &&& forall|k: int| 0 <= k < 3 ==> !(plan[k] is ClearJournal)
        }),
{
}

/// What the planner decides for a Linux-family resize: validation,
/// then — shrinking — the filesystem resize before the table rewrite,
/// or — growing — the table rewrite before the filesystem resize, with
/// the progress marks of each phase.
pub open spec fn resize_plan_spec(
    info: crate::geometry::PartitionInfoV,
    fs: Seq<char>,
    new_size: Seq<char>,
    sgdisk_found: bool,
) -> Result<Seq<ActionV>, Seq<char>> {
    if !sgdisk_found {
        Err("sgdisk is required for ext4/ntfs resize"@)
    } else if parse_size_spec(new_size) is None {
        if !num_valid(size_num_part(new_size)) {
            Err("Invalid size"@)
        } else {
            Err("Invalid size suffix"@)
        }
    } else {
        let aligned = align_mib_spec(parse_size_spec(new_size)->0);
        let start = info.partition_offset;
        let current_end = start + info.partition_size;
        let new_end = start + aligned;
        if aligned == 0 {
            Err("Invalid size"@)
        } else if new_end > info.max_end {
            Err("New size exceeds available space"@)
        } else if new_end == current_end {
            Ok(seq![progress_v(100, "Resize complete"@)])
        } else if partition_number_spec(info.device) is None {
            Err("Invalid partition"@)
        } else {
            let part = partition_number_spec(info.device)->0;
            let rewrite = ActionV::Sidecar {
                binary: "sgdisk"@,
                args: sgdisk_rewrite_argv(
                    part,
                    (start / info.block_size) as u64,
                    (new_end / (info.block_size as int) - 1) as u64,
                    info.disk,
                ),
            };
            if new_end < current_end {
                let mib = (aligned / 0x100000) as u64;
                let fs_cmd = if fs == "ext4"@ {
                    ActionV::Sidecar {
                        binary: "resize2fs"@,
                        args: seq![info.device, dec_str(mib as nat) + seq!['M']],
                    }
                } else {
                    ActionV::Sidecar {
                        binary: "ntfsresize"@,
                        args: seq!["-s"@, dec_str(mib as nat) + seq!['M'], info.device],
                    }
                };
                Ok(
                    seq![
                        progress_v(10, "Shrink filesystem"@),
                        fs_cmd,
                        progress_v(60, "Update partition table"@),
                        rewrite,
                        progress_v(100, "Resize complete"@),
                    ],
                )
            } else {
                let fs_cmd = if fs == "ext4"@ {
                    ActionV::Sidecar { binary: "resize2fs"@, args: seq![info.device] }
                } else {
                    ActionV::Sidecar { binary: "ntfsresize"@, args: seq![info.device] }
                };
                Ok(
                    seq![
                        progress_v(40, "Update partition table"@),
                        rewrite,
                        progress_v(70, "Grow filesystem"@),
                        fs_cmd,
                        progress_v(100, "Resize complete"@),
                    ],
                )
            }
        }
    }
}

/// A resize progress mark.
pub open spec fn progress_v(percent: u64, message: Seq<char>) -> ActionV {
    ActionV::Progress { phase: "resize"@, percent, total: 100, message }
}

/// Build a resize progress mark.
fn progress_step(percent: u64, message: &str) -> (r: Action)
    ensures
        r@ == progress_v(percent, message@),
{
    Action::Progress {
        phase: String::from_str("resize"),
        percent,
        total: 100,
        message: message.to_owned(),
    }
}

/// Plan a Linux-family resize: parse and align the requested size,
/// check it against the available space, and order the filesystem and
/// partition-table steps by the direction of the change.
pub fn plan_resize_partition(
    info: &crate::geometry::PartitionInfo,
    fs: &str,
    new_size: &str,
    sgdisk_found: bool,
) -> (r: Result<Vec<Action>, String>)
    requires
        info@.wf(),
        fs@ == "ext4"@ || fs@ == "ntfs"@,
    ensures
        match r {
            Ok(plan) => resize_plan_spec(info@, fs@, new_size@, sgdisk_found) == Ok::<
                _,
                Seq<char>,
            >(plan_view(plan@)),
            Err(e) => resize_plan_spec(info@, fs@, new_size@, sgdisk_found) == Err::<
                Seq<ActionV>,
                _,
            >(e@),
        },
{
    if !sgdisk_found {
        return Err(String::from_str("sgdisk is required for ext4/ntfs resize"));
    }
    let parsed: u64 = match parse_size_bytes(new_size) {
        Ok(v) => v,
        Err(e) => {
            return Err(e);
        },
    };
    let aligned = align_mib(parsed);
    if aligned == 0 {
        return Err(String::from_str("Invalid size"));
    }
    let start = info.partition_offset;
    if aligned > info.max_end || start > info.max_end - aligned {
        return Err(String::from_str("New size exceeds available space"));
    }
    let new_end = start + aligned;
    let current_end = start + info.partition_size;
    if new_end == current_end {
        let plan: Vec<Action> = vec![progress_step(100, "Resize complete")];
        proof {
            assert(plan_view(plan@) =~= resize_plan_spec(info@, fs@, new_size@, sgdisk_found)
                ->Ok_0);
        }
        return Ok(plan);
    }
    let part: u32 = match partition_number(info.device.as_str()) {
        Some(p) => p,
        None => {
            return Err(String::from_str("Invalid partition"));
        },
    };
    proof {
        assert(aligned >= 0x100000) by {
            vstd::arithmetic::div_mod::lemma_fundamental_div_mod(parsed as int, 0x100000);
        }
        assert(new_end >= 0x100000);
        assert(new_end as int / info@.block_size as int >= 1) by {
            vstd::arithmetic::div_mod::lemma_div_is_ordered(
                info@.block_size as int,
                new_end as int,
                info@.block_size as int,
            );
            vstd::arithmetic::div_mod::lemma_div_by_self(info@.block_size as int);
        }
    }
    let start_sector = start / info.block_size;
    let end_sector = new_end / info.block_size - 1;
    let args = sgdisk_rewrite_args(part, start_sector, end_sector, info.disk.as_str());
    let rewrite = Action::Sidecar { binary: String::from_str("sgdisk"), args };
    if new_end < current_end {
        let mib = aligned / 0x100000;
        let mut size_arg = u64_to_string(mib);
        crate::strutil::push_char(&mut size_arg, 'M');
        let fs_cmd: Action = if str_eq(fs, "ext4") {
            let a = vec![info.device.clone(), size_arg];
            proof {
                assert(a.deep_view() =~~= seq![info@.device, dec_str(mib as nat) + seq!['M']]);
            }
            Action::Sidecar { binary: String::from_str("resize2fs"), args: a }
        } else {
            let a = vec!["-s".to_owned(), size_arg, info.device.clone()];
            proof {
                assert(a.deep_view() =~~= seq![
                    "-s"@,
                    dec_str(mib as nat) + seq!['M'],
                    info@.device,
                ]);
            }
            Action::Sidecar { binary: String::from_str("ntfsresize"), args: a }
        };
        let plan: Vec<Action> = vec![
            progress_step(10, "Shrink filesystem"),
            fs_cmd,
            progress_step(60, "Update partition table"),
            rewrite,
            progress_step(100, "Resize complete"),
        ];
        proof {
            assert(plan_view(plan@) =~= resize_plan_spec(info@, fs@, new_size@, sgdisk_found)
                ->Ok_0);
        }
        Ok(plan)
    } else {
        let fs_cmd: Action = if str_eq(fs, "ext4") {
            let a = vec![info.device.clone()];
            proof {
                assert(a.deep_view() =~= seq![info@.device]);
            }
            Action::Sidecar { binary: String::from_str("resize2fs"), args: a }
        } else {
            let a = vec![info.device.clone()];
            proof {
                assert(a.deep_view() =~= seq![info@.device]);
            }
            Action::Sidecar { binary: String::from_str("ntfsresize"), args: a }
        };
        let plan: Vec<Action> = vec![
            progress_step(40, "Update partition table"),
            rewrite,
            progress_step(70, "Grow filesystem"),
            fs_cmd,
            progress_step(100, "Resize complete"),
        ];
        proof {
            assert(plan_view(plan@) =~= resize_plan_spec(info@, fs@, new_size@, sgdisk_found)
                ->Ok_0);
        }
        Ok(plan)
    }
}

/// What the type-code step decides.
pub enum TypecodeDecision {
    /// The family keeps the type the host tool wrote.
    NotNeeded,
    /// sgdisk is missing; the rewrite is skipped with this warning.
    Warning(String),
    /// Run sgdisk with these arguments.
    Run(Vec<String>),
}

/// The sgdisk type-code arguments for one partition.
pub open spec fn typecode_argv(part: u32, code: Seq<char>, disk: Seq<char>) -> Seq<Seq<char>> {
    seq!["--typecode"@, dec_str(part as nat) + seq![':'] + code, disk]
}

/// Decide the GPT type-code rewrite after a Linux-family format: which
/// code the filesystem needs, and whether sgdisk is there to write it.
pub fn set_partition_typecode(partition: &str, fs: &str, sgdisk_found: bool) -> (r: Result<
    TypecodeDecision,
    String,
>)
    ensures
        match r {
            Ok(d) => partition_number_spec(partition@) is Some && parent_disk_ok(partition@)
                && (match d {
                TypecodeDecision::NotNeeded => crate::fstype::typecode_spec(fs@) is None,
                TypecodeDecision::Warning(w) => crate::fstype::typecode_spec(fs@) is Some
                    && !sgdisk_found && w@ == "sgdisk not found; GPT typecode not updated"@,
                TypecodeDecision::Run(args) => crate::fstype::typecode_spec(fs@) matches Some(
                    code,
                ) && sgdisk_found && args.deep_view() == typecode_argv(
                    partition_number_spec(partition@)->0,
                    code,
                    crate::device::parent_disk_spec(partition@)->0,
                ),
            }),
            Err(e) => (partition_number_spec(partition@) is None && e@
                == "Invalid partition identifier"@) || (partition_number_spec(partition@)
                is Some && !parent_disk_ok(partition@) && e@ == "Invalid disk identifier"@),
        },
{
    let part: u32 = match partition_number(partition) {
        Some(p) => p,
        None => {
            return Err(String::from_str("Invalid partition identifier"));
        },
    };
    let disk: String = match crate::device::parent_disk_identifier(partition) {
        Some(d) => d,
        None => {
            return Err(String::from_str("Invalid disk identifier"));
        },
    };
    let code: String = match crate::fstype::typecode_for(fs) {
        Some(c) => c,
        None => {
            return Ok(TypecodeDecision::NotNeeded);
        },
    };
    if !sgdisk_found {
        return Ok(
            TypecodeDecision::Warning(
                String::from_str("sgdisk not found; GPT typecode not updated"),
            ),
        );
    }
    let mut entry = u64_to_string(part as u64);
    crate::strutil::push_char(&mut entry, ':');
    entry.append(code.as_str());
    let args = vec!["--typecode".to_owned(), entry, disk];
    proof {
        assert(args.deep_view() =~~= typecode_argv(
            part,
            crate::fstype::typecode_spec(fs@)->0,
            crate::device::parent_disk_spec(partition@)->0,
        ));
    }
    Ok(TypecodeDecision::Run(args))
}

/// The device has a parent disk by the identifier rule.
pub open spec fn parent_disk_ok(device: Seq<char>) -> bool {
    crate::device::parent_disk_spec(device) is Some
}

} // verus!
