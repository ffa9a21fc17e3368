//! The operation planner: wipe, table creation, partition creation,
//! format, delete, label and UUID changes, filesystem checks, copy
//! preparation, flash validation, quiescence, and the APFS volume
//! commands.  Each function turns a validated request into the exact
//! host-tool command lines; the surrounding binary runs them in order.

use vstd::prelude::*;

use crate::blockops::{Action, ActionV};
use crate::driver::{driver_for, FileSystemDriver};
use crate::strutil::{dec_str, lower_spec, lower_string, str_eq, u64_to_string};

verus! {

/// The canonical scheme name of a table type, case-insensitively.
pub open spec fn scheme_spec(table_type: Seq<char>) -> Result<Seq<char>, Seq<char>> {
    if lower_spec(table_type) == "gpt"@ {
        Ok("GPT"@)
    } else if lower_spec(table_type) == "mbr"@ {
        Ok("MBR"@)
    } else {
        Err("Unsupported table type: "@ + lower_spec(table_type))
    }
}

/// Resolve a requested table type to the host tool's scheme name; only
/// GPT and MBR exist.
pub fn resolve_scheme(table_type: &str) -> (r: Result<String, String>)
    ensures
        match r {
            Ok(s) => scheme_spec(table_type@) == Ok::<_, Seq<char>>(s@),
            Err(e) => scheme_spec(table_type@) == Err::<Seq<char>, _>(e@),
        },
{
    let low = lower_string(table_type);
    if str_eq(low.as_str(), "gpt") {
        Ok(String::from_str("GPT"))
    } else if str_eq(low.as_str(), "mbr") {
        Ok(String::from_str("MBR"))
    } else {
        let msg = String::from_str("Unsupported table type: ");
        Err(msg.concat(low.as_str()))
    }
}

/// The native erase name of a format type, when the host tool formats
/// it directly.
pub open spec fn native_format_spec(fs: Seq<char>) -> Option<Seq<char>> {
    if fs == "exfat"@ {
        Some("ExFAT"@)
    } else if fs == "fat32"@ {
        Some("MS-DOS"@)
    } else if fs == "apfs"@ {
        Some("APFS"@)
    } else {
        None
    }
}

/// What a format type means to the planner.
pub enum FormatRoute {
    /// The host tool erases to this native format name.
    Native(String),
    /// The Linux route: a throwaway MS-DOS seed, then the driver's mkfs.
    Linux(String),
}

/// The Linux-family tags.
pub open spec fn linux_family(fs: Seq<char>) -> bool {
    fs == "ext4"@ || fs == "ntfs"@ || fs == "btrfs"@ || fs == "xfs"@ || fs == "f2fs"@ || fs
        == "swap"@
}

/// Decide the route of a requested format type, case-insensitively:
/// native for the families the host tool formats, the Linux route for
/// the driver table, an error otherwise.
pub fn format_route(format_type: &str) -> (r: Result<FormatRoute, String>)
    ensures
        match r {
            Ok(FormatRoute::Native(name)) => native_format_spec(lower_spec(format_type@))
                == Some(name@),
            Ok(FormatRoute::Linux(fs)) => linux_family(lower_spec(format_type@)) && fs@
                == lower_spec(format_type@),
            Err(e) => native_format_spec(lower_spec(format_type@)) is None && !linux_family(
                lower_spec(format_type@),
            ) && e@ == "Unsupported format type: "@ + lower_spec(format_type@),
        },
{
    let low = lower_string(format_type);
    if str_eq(low.as_str(), "exfat") {
        Ok(FormatRoute::Native(String::from_str("ExFAT")))
    } else if str_eq(low.as_str(), "fat32") {
        Ok(FormatRoute::Native(String::from_str("MS-DOS")))
    } else if str_eq(low.as_str(), "apfs") {
        Ok(FormatRoute::Native(String::from_str("APFS")))
    } else if str_eq(low.as_str(), "ext4") || str_eq(low.as_str(), "ntfs") || str_eq(
        low.as_str(),
        "btrfs",
    ) || str_eq(low.as_str(), "xfs") || str_eq(low.as_str(), "f2fs") || str_eq(
        low.as_str(),
        "swap",
    ) {
        Ok(FormatRoute::Linux(low))
    } else {
        let msg = String::from_str("Unsupported format type: ");
        Err(msg.concat(low.as_str()))
    }
}

/// The throwaway label that marks a seeded partition.
pub open spec fn temp_label_spec(prefix: Seq<char>, now: u64) -> Seq<char> {
    prefix + dec_str(now as nat)
}

/// Build a throwaway label from a prefix and a timestamp.
pub fn temp_label(prefix: &str, now: u64) -> (r: String)
    ensures
        r@ == temp_label_spec(prefix@, now),
{
    let t = u64_to_string(now);
    let r = prefix.to_owned();
    r.concat(t.as_str())
}

/// The host-tool line that erases a whole disk to a format.
pub fn erase_disk_args(format_name: &str, label: &str, scheme: &str, device: &str) -> (r: Vec<
    String,
>)
    ensures
        r.deep_view() == seq!["eraseDisk"@, format_name@, label@, scheme@, device@],
{
    let r = vec![
        "eraseDisk".to_owned(),
        format_name.to_owned(),
        label.to_owned(),
        scheme.to_owned(),
        device.to_owned(),
    ];
    proof {
        assert(r.deep_view() =~= seq!["eraseDisk"@, format_name@, label@, scheme@, device@]);
    }
    r
}

/// The host-tool line that adds a partition.
pub fn add_partition_args(device: &str, format_name: &str, label: &str, size: &str) -> (r: Vec<
    String,
>)
    ensures
        r.deep_view() == seq!["addPartition"@, device@, format_name@, label@, size@],
{
    let r = vec![
        "addPartition".to_owned(),
        device.to_owned(),
        format_name.to_owned(),
        label.to_owned(),
        size.to_owned(),
    ];
    proof {
        assert(r.deep_view() =~= seq!["addPartition"@, device@, format_name@, label@, size@]);
    }
    r
}

/// The host-tool line that erases one volume to a format (or to free
/// space with format `free`, name `none`).
pub fn erase_volume_args(format_name: &str, label: &str, device: &str) -> (r: Vec<String>)
    ensures
        r.deep_view() == seq!["eraseVolume"@, format_name@, label@, device@],
{
    let r = vec![
        "eraseVolume".to_owned(),
        format_name.to_owned(),
        label.to_owned(),
        device.to_owned(),
    ];
    proof {
        assert(r.deep_view() =~= seq!["eraseVolume"@, format_name@, label@, device@]);
    }
    r
}

/// The host-tool line that partitions a whole disk into one free slice:
/// the create-table operation.
pub fn partition_disk_args(device: &str, scheme: &str) -> (r: Vec<String>)
    ensures
        r.deep_view() == seq![
            "partitionDisk"@,
            device@,
            "1"@,
            scheme@,
            "free"@,
            "%noformat%"@,
            "100%"@,
        ],
{
    let r = vec![
        "partitionDisk".to_owned(),
        device.to_owned(),
        "1".to_owned(),
        scheme.to_owned(),
        "free".to_owned(),
        "%noformat%".to_owned(),
        "100%".to_owned(),
    ];
    proof {
        assert(r.deep_view() =~= seq![
            "partitionDisk"@,
            device@,
            "1"@,
            scheme@,
            "free"@,
            "%noformat%"@,
            "100%"@,
        ]);
    }
    r
}

/// The quiescence lines before a mutation: a best-effort unmount of the
/// volume itself, then the hard-required unmount of its whole disk.
pub fn force_unmount_plan(device: &str) -> (r: (Vec<String>, Vec<String>))
    ensures
        r.0.deep_view() == seq!["unmount"@, "force"@, device@],
        r.1.deep_view() == seq!["unmountDisk"@, "force"@, (match crate::device::parent_disk_spec(
            device@,
        ) {
            Some(d) => d,
            None => device@,
        })],
{
    let disk: String = match crate::device::parent_disk_identifier(device) {
        Some(d) => d,
        None => device.to_owned(),
    };
    let a = vec!["unmount".to_owned(), "force".to_owned(), device.to_owned()];
    let b = vec!["unmountDisk".to_owned(), "force".to_owned(), disk];
    proof {
        assert(a.deep_view() =~= seq!["unmount"@, "force"@, device@]);
        assert(b.deep_view() =~= seq!["unmountDisk"@, "force"@, (match
            crate::device::parent_disk_spec(device@) {
            Some(d) => d,
            None => device@,
        })]);
    }
    (a, b)
}

/// The best-effort kernel-table refresh lines after a mutation: a quiet
/// repair and the default order update, both on the whole disk.
pub fn sync_kernel_table_plan(device: &str) -> (r: (Vec<String>, Vec<String>))
    ensures
        ({
            let disk = match crate::device::parent_disk_spec(device@) {
                Some(d) => d,
                None => device@,
            };
            r.0.deep_view() == seq!["quiet"@, "repairDisk"@, disk] && r.1.deep_view() == seq![
                "updateDefaultPartitionOrder"@,
                disk,
            ]
        }),
{
    let disk: String = match crate::device::parent_disk_identifier(device) {
        Some(d) => d,
        None => device.to_owned(),
    };
    let a = vec!["quiet".to_owned(), "repairDisk".to_owned(), disk.clone()];
    let b = vec!["updateDefaultPartitionOrder".to_owned(), disk];
    proof {
        let dv = match crate::device::parent_disk_spec(device@) {
            Some(d) => d,
            None => device@,
        };
        assert(a.deep_view() =~= seq!["quiet"@, "repairDisk"@, dv]);
        assert(b.deep_view() =~= seq!["updateDefaultPartitionOrder"@, dv]);
    }
    (a, b)
}

/// Swap must be taken offline before its volume is touched.
pub fn needs_swapoff(fs_type: &str) -> (r: bool)
    ensures
        r == (fs_type@ == "swap"@),
{
    str_eq(fs_type, "swap")
}

/// The driver mkfs line for a Linux-family format; a family without the
/// capability is an error, never a silent skip.
pub fn linux_mkfs_command(fs: &str, device: &str, label: &str) -> (r: Result<
    (String, Vec<String>),
    String,
>)
    ensures
        match r {
            Ok(cmd) => crate::driver::has_driver(fs@) && crate::driver::driver_of(
                fs@,
            ).spec_mkfs(device@, label@) == Some((cmd.0@, cmd.1.deep_view())),
            Err(e) => e@ == "Unsupported filesystem"@ && !crate::driver::has_driver(fs@),
        },
{
    match driver_for(fs) {
        Some(driver) => {
            match driver.mkfs_command(device, label) {
                Some(cmd) => {
                    proof {
                        assert(driver.spec_mkfs(device@, label@) == Some(
                            (cmd.0@, cmd.1.deep_view()),
                        ));
                    }
                    Ok(cmd)
                },
                None => {
                    proof {
                        // every driver of the registry has mkfs
                        assert(false);
                    }
                    Err(String::from_str("Unsupported filesystem"))
                },
            }
        },
        None => Err(String::from_str("Unsupported filesystem")),
    }
}

/// One step of a label or UUID change.
pub enum LabelStep {
    Diskutil(Vec<String>),
    Sidecar(String, Vec<String>),
}

/// The shape of one label step.
pub open spec fn label_step_view(s: LabelStep) -> ActionV {
    match s {
        LabelStep::Diskutil(args) => ActionV::Diskutil { args: args.deep_view() },
        LabelStep::Sidecar(bin, args) => ActionV::Sidecar {
            binary: bin@,
            args: args.deep_view(),
        },
    }
}

/// The shapes of the steps of a label change.
pub open spec fn label_steps_view(s: Seq<LabelStep>) -> Seq<ActionV> {
    Seq::new(s.len(), |i: int| label_step_view(s[i]))
}

/// What the label/UUID dispatch decides for a filesystem tag.
pub open spec fn label_uuid_spec(
    device: Seq<char>,
    fs: Seq<char>,
    label: Option<Seq<char>>,
    uuid: Option<Seq<char>>,
) -> Result<Seq<ActionV>, Seq<char>> {
    if label is None && uuid is None {
        Err("No label or UUID provided"@)
    } else if fs == "apfs"@ {
        let first: Seq<ActionV> = match label {
            Some(l) => seq![
                ActionV::Diskutil { args: seq!["renameVolume"@, device, l] },
            ],
            None => Seq::empty(),
        };
        match uuid {
            Some(u) => Ok(
                first.push(
                    ActionV::Diskutil { args: seq!["apfs"@, "changeVolumeUUID"@, device, u] },
                ),
            ),
            None => Ok(first),
        }
    } else if crate::driver::has_driver(fs) {
        linux_label_uuid_spec(device, fs, label, uuid)
    } else if fs == "exfat"@ || fs == "fat32"@ {
        if uuid is Some {
            Err("FAT/ExFAT UUID change is not supported"@)
        } else {
            match label {
                Some(l) => Ok(
                    seq![ActionV::Diskutil { args: seq!["renameVolume"@, device, l] }],
                ),
                None => Ok(Seq::empty()),
            }
        }
    } else {
        Err("Unsupported filesystem for label/UUID"@)
    }
}

/// The Linux-family branch of the label/UUID dispatch.
pub open spec fn linux_label_uuid_spec(
    device: Seq<char>,
    fs: Seq<char>,
    label: Option<Seq<char>>,
    uuid: Option<Seq<char>>,
) -> Result<Seq<ActionV>, Seq<char>> {
    let d = crate::driver::driver_of(fs);
    let first: Result<Seq<ActionV>, Seq<char>> = match label {
        Some(l) => match d.spec_label(device, l) {
            Some(cmd) => Ok(seq![ActionV::Sidecar { binary: cmd.0, args: cmd.1 }]),
            None => Err("Label change not supported"@),
        },
        None => Ok(Seq::empty()),
    };
    match first {
        Err(e) => Err(e),
        Ok(steps) => match uuid {
            Some(u) => if !crate::ident::uuid_ok(u) {
                Err("Invalid UUID format"@)
            } else {
                match d.spec_uuid(device, u) {
                    Some(cmd) => Ok(
                        steps.push(ActionV::Sidecar { binary: cmd.0, args: cmd.1 }),
                    ),
                    None => Err("UUID change not supported"@)
                }
            },
            None => Ok(steps),
        },
    }
}

/// The filesystem check command of one tag: e2fsck for ext4, ntfsfix
/// for ntfs, the host tool's verify or repair for the native family.
pub open spec fn check_cmd_spec(device: Seq<char>, fs: Seq<char>, repair: bool) -> Result<
    ActionV,
    Seq<char>,
> {
    if fs == "ext4"@ {
        Ok(ActionV::Sidecar { binary: "e2fsck"@, args: seq!["-p"@, "-f"@, device] })
    } else if fs == "ntfs"@ {
        Ok(ActionV::Sidecar { binary: "ntfsfix"@, args: seq![device] })
    } else if fs == "apfs"@ || fs == "exfat"@ || fs == "fat32"@ {
        if repair {
            Ok(ActionV::Diskutil { args: seq!["repairVolume"@, device] })
        } else {
            Ok(ActionV::Diskutil { args: seq!["verifyVolume"@, device] })
        }
    } else {
        Err("Unsupported filesystem for check"@)
    }
}

/// Decide the check command for a partition.
pub fn check_partition_command(device: &str, fs: &str, repair: bool) -> (r: Result<
    Action,
    String,
>)
    ensures
        match r {
            Ok(a) => check_cmd_spec(device@, fs@, repair) == Ok::<_, Seq<char>>(a@),
            Err(e) => check_cmd_spec(device@, fs@, repair) == Err::<ActionV, _>(e@),
        },
{
    if str_eq(fs, "ext4") {
        let args = vec!["-p".to_owned(), "-f".to_owned(), device.to_owned()];
        proof {
            assert(args.deep_view() =~= seq!["-p"@, "-f"@, device@]);
        }
        Ok(Action::Sidecar { binary: String::from_str("e2fsck"), args })
    } else if str_eq(fs, "ntfs") {
        let args = vec![device.to_owned()];
        proof {
            assert(args.deep_view() =~= seq![device@]);
        }
        Ok(Action::Sidecar { binary: String::from_str("ntfsfix"), args })
    } else if str_eq(fs, "apfs") || str_eq(fs, "exfat") || str_eq(fs, "fat32") {
        if repair {
            let args = vec!["repairVolume".to_owned(), device.to_owned()];
            proof {
                assert(args.deep_view() =~= seq!["repairVolume"@, device@]);
            }
            Ok(Action::Diskutil { args })
        } else {
            let args = vec!["verifyVolume".to_owned(), device.to_owned()];
            proof {
                assert(args.deep_view() =~= seq!["verifyVolume"@, device@]);
            }
            Ok(Action::Diskutil { args })
        }
    } else {
        Err(String::from_str("Unsupported filesystem for check"))
    }
}

/// A source filesystem the copy operation accepts.
pub open spec fn copyable_fs(fs: Seq<char>) -> bool {
    fs == "ext4"@ || fs == "ntfs"@ || fs == "exfat"@ || fs == "fat32"@
}

/// Whether the copy operation accepts a source filesystem.
pub fn copy_supported(fs: &str) -> (r: bool)
    ensures
        r == copyable_fs(fs@),
{
    str_eq(fs, "ext4") || str_eq(fs, "ntfs") || str_eq(fs, "exfat") || str_eq(fs, "fat32")
}

/// The MiB count that holds `size` bytes, rounded up, at least one.
pub open spec fn copy_seed_mib(size: u64) -> int {
    if size == 0 {
        1
    } else {
        (size - 1) / 0x100000 + 1
    }
}

/// The size argument of the copy seed partition: whole MiB covering the
/// source, as `<n>M`.
pub fn copy_seed_size_arg(size: u64) -> (r: String)
    ensures
        r@ == dec_str(copy_seed_mib(size) as nat) + seq!['M'],
{
    let mib: u64 = if size == 0 {
        1
    } else {
        (size - 1) / 0x100000 + 1
    };
    let mut r = u64_to_string(mib);
    crate::strutil::push_char(&mut r, 'M');
    proof {
        assert(r@ =~= dec_str(copy_seed_mib(size) as nat) + seq!['M']);
    }
    r
}

/// The identifier-refresh step after a copy, per filesystem: a new UUID
/// for ext4, a new serial for ntfs, a warning for the FAT family.
pub enum UuidRefresh {
    Run(Action),
    Warn(String),
}

/// Decide the identifier refresh of a copied partition.
pub fn copy_uuid_refresh(target: &str, fs: &str) -> (r: Option<UuidRefresh>)
    requires
        copyable_fs(fs@),
    ensures
        match r {
            Some(UuidRefresh::Run(a)) => (fs@ == "ext4"@ && a@ == (ActionV::Sidecar {
                binary: "tune2fs"@,
                args: seq!["-U"@, "random"@, target@],
            })) || (fs@ == "ntfs"@ && a@ == (ActionV::Sidecar {
                binary: "ntfslabel"@,
                args: seq!["--new-serial"@, target@],
            })),
            Some(UuidRefresh::Warn(w)) => (fs@ == "exfat"@ || fs@ == "fat32"@) && w@
                == "UUID refresh not supported for FAT/ExFAT"@,
            None => false,
        },
{
    if str_eq(fs, "ext4") {
        let args = vec!["-U".to_owned(), "random".to_owned(), target.to_owned()];
        proof {
            assert(args.deep_view() =~= seq!["-U"@, "random"@, target@]);
        }
        Some(UuidRefresh::Run(Action::Sidecar { binary: String::from_str("tune2fs"), args }))
    } else if str_eq(fs, "ntfs") {
        let args = vec!["--new-serial".to_owned(), target.to_owned()];
        proof {
            assert(args.deep_view() =~= seq!["--new-serial"@, target@]);
        }
        Some(UuidRefresh::Run(Action::Sidecar { binary: String::from_str("ntfslabel"), args }))
    } else {
        Some(UuidRefresh::Warn(String::from_str("UUID refresh not supported for FAT/ExFAT")))
    }
}

/// Validate a flash request against the target size: a known, positive
/// disk size must hold the image.
pub fn validate_flash_size(file_size: u64, disk_size: u64) -> (r: Result<(), String>)
    ensures
        r is Ok <==> !(disk_size > 0 && file_size > disk_size),
        r is Err ==> r->Err_0@ == "Image is larger than target device"@,
{
    if disk_size > 0 && file_size > disk_size {
        Err(String::from_str("Image is larger than target device"))
    } else {
        Ok(())
    }
}

/// Decide a flash or verify stream over an empty image: both refuse it.
pub fn validate_stream_size(total_bytes: u64) -> (r: Result<(), String>)
    ensures
        r is Ok <==> total_bytes > 0,
        r is Err ==> r->Err_0@ == "Image is empty"@,
{
    if total_bytes == 0 {
        Err(String::from_str("Image is empty"))
    } else {
        Ok(())
    }
}

/// Compare the source and read-back digests of a flash: equality is
/// the verification verdict.
pub fn verify_digests(source_hash: &str, verified_hash: &str) -> (r: Result<(), String>)
    ensures
        r is Ok <==> source_hash@ == verified_hash@,
        r is Err ==> r->Err_0@ == "Verification failed: checksum mismatch"@,
{
    if str_eq(source_hash, verified_hash) {
        Ok(())
    } else {
        Err(String::from_str("Verification failed: checksum mismatch"))
    }
}

/// The host-tool line that adds an APFS volume, with the role only when
/// one is named: an empty or `None` role is omitted.
pub fn apfs_add_volume_args(container: &str, name: &str, role: &str) -> (r: Vec<String>)
    ensures
        ({
            let bare = crate::strutil::trim_spec(role@).len() == 0 || role@ == "None"@;
            if bare {
                r.deep_view() == seq!["apfs"@, "addVolume"@, container@, "APFS"@, name@]
            } else {
                r.deep_view() == seq![
                    "apfs"@,
                    "addVolume"@,
                    container@,
                    "APFS"@,
                    name@,
                    "-role"@,
                    role@,
                ]
            }
        }),
{
    let trimmed = crate::strutil::trim(role);
    if trimmed.as_str().unicode_len() == 0 || str_eq(role, "None") {
        let r = vec![
            "apfs".to_owned(),
            "addVolume".to_owned(),
            container.to_owned(),
            "APFS".to_owned(),
            name.to_owned(),
        ];
        proof {
            assert(r.deep_view() =~= seq!["apfs"@, "addVolume"@, container@, "APFS"@, name@]);
        }
        r
    } else {
        let r = vec![
            "apfs".to_owned(),
            "addVolume".to_owned(),
            container.to_owned(),
            "APFS".to_owned(),
            name.to_owned(),
            "-role".to_owned(),
            role.to_owned(),
        ];
        proof {
            assert(r.deep_view() =~= seq![
                "apfs"@,
                "addVolume"@,
                container@,
                "APFS"@,
                name@,
                "-role"@,
                role@,
            ]);
        }
        r
    }
}

/// The host-tool line that deletes an APFS volume.
pub fn apfs_delete_volume_args(volume: &str) -> (r: Vec<String>)
    ensures
        r.deep_view() == seq!["apfs"@, "deleteVolume"@, volume@],
{
    let r = vec!["apfs".to_owned(), "deleteVolume".to_owned(), volume.to_owned()];
    proof {
        assert(r.deep_view() =~= seq!["apfs"@, "deleteVolume"@, volume@]);
    }
    r
}

/// Dispatch a label/UUID change by filesystem tag.
pub fn plan_set_label_uuid(
    device: &str,
    fs: &str,
    label: Option<&String>,
    uuid: Option<&String>,
) -> (r: Result<Vec<LabelStep>, String>)
    ensures
        ({
            let lv = match label {
                Some(l) => Some(l@),
                None => None::<Seq<char>>,
            };
            let uv = match uuid {
                Some(u) => Some(u@),
                None => None::<Seq<char>>,
            };
            match r {
                Ok(steps) => label_uuid_spec(device@, fs@, lv, uv) == Ok::<_, Seq<char>>(
                    label_steps_view(steps@),
                ),
                Err(e) => label_uuid_spec(device@, fs@, lv, uv) == Err::<Seq<ActionV>, _>(e@),
            }
        }),
{
    if label.is_none() && uuid.is_none() {
        return Err(String::from_str("No label or UUID provided"));
    }
    if str_eq(fs, "apfs") {
        let mut steps: Vec<LabelStep> = Vec::new();
        match label {
            Some(l) => {
                let args = vec!["renameVolume".to_owned(), device.to_owned(), l.clone()];
                proof {
                    assert(args.deep_view() =~= seq!["renameVolume"@, device@, l@]);
                }
                steps.push(LabelStep::Diskutil(args));
            },
            None => {},
        }
        match uuid {
            Some(u) => {
                let args = vec![
                    "apfs".to_owned(),
                    "changeVolumeUUID".to_owned(),
                    device.to_owned(),
                    u.clone(),
                ];
                proof {
                    assert(args.deep_view() =~= seq![
                        "apfs"@,
                        "changeVolumeUUID"@,
                        device@,
                        u@,
                    ]);
                }
                steps.push(LabelStep::Diskutil(args));
            },
            None => {},
        }
        proof {
            let lv = match label {
                Some(l) => Some(l@),
                None => None::<Seq<char>>,
            };
            let uv = match uuid {
                Some(u) => Some(u@),
                None => None::<Seq<char>>,
            };
            assert(label_steps_view(steps@) =~= label_uuid_spec(device@, fs@, lv, uv)->Ok_0);
        }
        return Ok(steps);
    }
    match driver_for(fs) {
        Some(driver) => {
            let mut steps: Vec<LabelStep> = Vec::new();
            match label {
                Some(l) => {
                    match driver.label_command(device, l.as_str()) {
                        Some(cmd) => {
                            steps.push(LabelStep::Sidecar(cmd.0, cmd.1));
                        },
                        None => {
                            return Err(String::from_str("Label change not supported"));
                        },
                    }
                },
                None => {},
            }
            match uuid {
                Some(u) => {
                    match crate::ident::validate_uuid(u.as_str()) {
                        Ok(_) => {},
                        Err(e) => {
                            return Err(e);
                        },
                    }
                    match driver.uuid_command(device, u.as_str()) {
                        Some(cmd) => {
                            steps.push(LabelStep::Sidecar(cmd.0, cmd.1));
                        },
                        None => {
                            return Err(String::from_str("UUID change not supported"));
                        },
                    }
                },
                None => {},
            }
            proof {
                let lv = match label {
                    Some(l) => Some(l@),
                    None => None::<Seq<char>>,
                };
                let uv = match uuid {
                    Some(u) => Some(u@),
                    None => None::<Seq<char>>,
                };
                assert(label_steps_view(steps@) =~= label_uuid_spec(device@, fs@, lv, uv)
                    ->Ok_0);
            }
            Ok(steps)
        },
        None => {
            if str_eq(fs, "exfat") || str_eq(fs, "fat32") {
                if uuid.is_some() {
                    return Err(String::from_str("FAT/ExFAT UUID change is not supported"));
                }
                let mut steps: Vec<LabelStep> = Vec::new();
                match label {
                    Some(l) => {
                        let args = vec![
                            "renameVolume".to_owned(),
                            device.to_owned(),
                            l.clone(),
                        ];
                        proof {
                            assert(args.deep_view() =~= seq!["renameVolume"@, device@, l@]);
                        }
                        steps.push(LabelStep::Diskutil(args));
                    },
                    None => {},
                }
                proof {
                    let lv = match label {
                        Some(l) => Some(l@),
                        None => None::<Seq<char>>,
                    };
                    assert(label_steps_view(steps@) =~= label_uuid_spec(
                        device@,
                        fs@,
                        lv,
                        None,
                    )->Ok_0);
                }
                Ok(steps)
            } else {
                Err(String::from_str("Unsupported filesystem for label/UUID"))
            }
        },
    }
}

} // verus!
