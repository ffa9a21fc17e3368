//! The filesystem driver registry: for each Linux-family filesystem a
//! driver that yields the (binary, argv) pairs for mkfs, label change
//! and UUID change.  A capability may be absent; callers must answer an
//! absent capability with a "not supported" error, never skip silently.

use vstd::prelude::*;

verus! {

/// A command line: the binary to run, and its arguments.
pub type CmdLine = (Seq<char>, Seq<Seq<char>>);

/// A driver for one filesystem family.
pub trait FileSystemDriver {
    /// The stable id of the filesystem this driver serves.
    spec fn spec_id(&self) -> Seq<char>;

    /// The mkfs command, if the capability exists.
    spec fn spec_mkfs(&self, device: Seq<char>, label: Seq<char>) -> Option<CmdLine>;

    /// The label-change command, if the capability exists.
    spec fn spec_label(&self, device: Seq<char>, label: Seq<char>) -> Option<CmdLine>;

    /// The UUID-change command, if the capability exists.
    spec fn spec_uuid(&self, device: Seq<char>, uuid: Seq<char>) -> Option<CmdLine>;

    fn id(&self) -> (r: &'static str)
        ensures
            r@ == self.spec_id(),
    ;

    fn mkfs_command(&self, device: &str, label: &str) -> (r: Option<(String, Vec<String>)>)
        ensures
            r.deep_view() == self.spec_mkfs(device@, label@),
    ;

    fn label_command(&self, device: &str, label: &str) -> (r: Option<(String, Vec<String>)>)
        ensures
            r.deep_view() == self.spec_label(device@, label@),
    ;

    fn uuid_command(&self, device: &str, uuid: &str) -> (r: Option<(String, Vec<String>)>)
        ensures
            r.deep_view() == self.spec_uuid(device@, uuid@),
    ;
}

pub struct Ext4Driver;

pub struct NtfsDriver;

pub struct BtrfsDriver;

pub struct XfsDriver;

pub struct F2fsDriver;

pub struct SwapDriver;

impl FileSystemDriver for Ext4Driver {
    open spec fn spec_id(&self) -> Seq<char> {
        "ext4"@
    }

    open spec fn spec_mkfs(&self, device: Seq<char>, label: Seq<char>) -> Option<CmdLine> {
        Some(("mkfs.ext4"@, seq!["-F"@, "-L"@, label, device]))
    }

    open spec fn spec_label(&self, device: Seq<char>, label: Seq<char>) -> Option<CmdLine> {
        Some(("e2label"@, seq![device, label]))
    }

    open spec fn spec_uuid(&self, device: Seq<char>, uuid: Seq<char>) -> Option<CmdLine> {
        Some(("tune2fs"@, seq!["-U"@, uuid, device]))
    }

    fn id(&self) -> (r: &'static str) {
        "ext4"
    }

    fn mkfs_command(&self, device: &str, label: &str) -> (r: Option<(String, Vec<String>)>) {
        let args = vec!["-F".to_owned(), "-L".to_owned(), label.to_owned(), device.to_owned()];
        proof {
            assert(args.deep_view() =~= seq!["-F"@, "-L"@, label@, device@]);
        }
        Some(("mkfs.ext4".to_owned(), args))
    }

    fn label_command(&self, device: &str, label: &str) -> (r: Option<(String, Vec<String>)>) {
        let args = vec![device.to_owned(), label.to_owned()];
        proof {
            assert(args.deep_view() =~= seq![device@, label@]);
        }
        Some(("e2label".to_owned(), args))
    }

    fn uuid_command(&self, device: &str, uuid: &str) -> (r: Option<(String, Vec<String>)>) {
        let args = vec!["-U".to_owned(), uuid.to_owned(), device.to_owned()];
        proof {
            assert(args.deep_view() =~= seq!["-U"@, uuid@, device@]);
        }
        Some(("tune2fs".to_owned(), args))
    }
}

impl FileSystemDriver for NtfsDriver {
    open spec fn spec_id(&self) -> Seq<char> {
        "ntfs"@
    }

    open spec fn spec_mkfs(&self, device: Seq<char>, label: Seq<char>) -> Option<CmdLine> {
        Some(("mkfs.ntfs"@, seq!["-F"@, "-L"@, label, device]))
    }

    open spec fn spec_label(&self, device: Seq<char>, label: Seq<char>) -> Option<CmdLine> {
        Some(("ntfslabel"@, seq![device, label]))
    }

    open spec fn spec_uuid(&self, device: Seq<char>, uuid: Seq<char>) -> Option<CmdLine> {
        None
    }

    fn id(&self) -> (r: &'static str) {
        "ntfs"
    }

    fn mkfs_command(&self, device: &str, label: &str) -> (r: Option<(String, Vec<String>)>) {
        let args = vec!["-F".to_owned(), "-L".to_owned(), label.to_owned(), device.to_owned()];
        proof {
            assert(args.deep_view() =~= seq!["-F"@, "-L"@, label@, device@]);
        }
        Some(("mkfs.ntfs".to_owned(), args))
    }

    fn label_command(&self, device: &str, label: &str) -> (r: Option<(String, Vec<String>)>) {
        let args = vec![device.to_owned(), label.to_owned()];
        proof {
            assert(args.deep_view() =~= seq![device@, label@]);
        }
        Some(("ntfslabel".to_owned(), args))
    }

    fn uuid_command(&self, device: &str, uuid: &str) -> (r: Option<(String, Vec<String>)>) {
        None
    }
}

impl FileSystemDriver for BtrfsDriver {
    open spec fn spec_id(&self) -> Seq<char> {
        "btrfs"@
    }

    open spec fn spec_mkfs(&self, device: Seq<char>, label: Seq<char>) -> Option<CmdLine> {
        Some(("mkfs.btrfs"@, seq!["-f"@, "-L"@, label, device]))
    }

    open spec fn spec_label(&self, device: Seq<char>, label: Seq<char>) -> Option<CmdLine> {
        Some(("btrfs"@, seq!["filesystem"@, "label"@, device, label]))
    }

    open spec fn spec_uuid(&self, device: Seq<char>, uuid: Seq<char>) -> Option<CmdLine> {
        None
    }

    fn id(&self) -> (r: &'static str) {
        "btrfs"
    }

    fn mkfs_command(&self, device: &str, label: &str) -> (r: Option<(String, Vec<String>)>) {
        let args = vec!["-f".to_owned(), "-L".to_owned(), label.to_owned(), device.to_owned()];
        proof {
            assert(args.deep_view() =~= seq!["-f"@, "-L"@, label@, device@]);
        }
        Some(("mkfs.btrfs".to_owned(), args))
    }

    fn label_command(&self, device: &str, label: &str) -> (r: Option<(String, Vec<String>)>) {
        let args = vec![
            "filesystem".to_owned(),
            "label".to_owned(),
            device.to_owned(),
            label.to_owned(),
        ];
        proof {
            assert(args.deep_view() =~= seq!["filesystem"@, "label"@, device@, label@]);
        }
        Some(("btrfs".to_owned(), args))
    }

    fn uuid_command(&self, device: &str, uuid: &str) -> (r: Option<(String, Vec<String>)>) {
        None
    }
}

impl FileSystemDriver for XfsDriver {
    open spec fn spec_id(&self) -> Seq<char> {
        "xfs"@
    }

    open spec fn spec_mkfs(&self, device: Seq<char>, label: Seq<char>) -> Option<CmdLine> {
        Some(("mkfs.xfs"@, seq!["-f"@, "-L"@, label, device]))
    }

    open spec fn spec_label(&self, device: Seq<char>, label: Seq<char>) -> Option<CmdLine> {
        Some(("xfs_admin"@, seq!["-L"@, label, device]))
    }

    open spec fn spec_uuid(&self, device: Seq<char>, uuid: Seq<char>) -> Option<CmdLine> {
        None
    }

    fn id(&self) -> (r: &'static str) {
        "xfs"
    }

    fn mkfs_command(&self, device: &str, label: &str) -> (r: Option<(String, Vec<String>)>) {
        let args = vec!["-f".to_owned(), "-L".to_owned(), label.to_owned(), device.to_owned()];
        proof {
            assert(args.deep_view() =~= seq!["-f"@, "-L"@, label@, device@]);
        }
        Some(("mkfs.xfs".to_owned(), args))
    }

    fn label_command(&self, device: &str, label: &str) -> (r: Option<(String, Vec<String>)>) {
        let args = vec!["-L".to_owned(), label.to_owned(), device.to_owned()];
        proof {
            assert(args.deep_view() =~= seq!["-L"@, label@, device@]);
        }
        Some(("xfs_admin".to_owned(), args))
    }

    fn uuid_command(&self, device: &str, uuid: &str) -> (r: Option<(String, Vec<String>)>) {
        None
    }
}

impl FileSystemDriver for F2fsDriver {
    open spec fn spec_id(&self) -> Seq<char> {
        "f2fs"@
    }

    open spec fn spec_mkfs(&self, device: Seq<char>, label: Seq<char>) -> Option<CmdLine> {
        Some(("mkfs.f2fs"@, seq![device]))
    }

    open spec fn spec_label(&self, device: Seq<char>, label: Seq<char>) -> Option<CmdLine> {
        None
    }

    open spec fn spec_uuid(&self, device: Seq<char>, uuid: Seq<char>) -> Option<CmdLine> {
        None
    }

    fn id(&self) -> (r: &'static str) {
        "f2fs"
    }

    fn mkfs_command(&self, device: &str, label: &str) -> (r: Option<(String, Vec<String>)>) {
        let args = vec![device.to_owned()];
        proof {
            assert(args.deep_view() =~= seq![device@]);
        }
        Some(("mkfs.f2fs".to_owned(), args))
    }

    fn label_command(&self, device: &str, label: &str) -> (r: Option<(String, Vec<String>)>) {
        None
    }

    fn uuid_command(&self, device: &str, uuid: &str) -> (r: Option<(String, Vec<String>)>) {
        None
    }
}

impl FileSystemDriver for SwapDriver {
    open spec fn spec_id(&self) -> Seq<char> {
        "swap"@
    }

    open spec fn spec_mkfs(&self, device: Seq<char>, label: Seq<char>) -> Option<CmdLine> {
        Some(("mkswap"@, seq!["-L"@, label, device]))
    }

    open spec fn spec_label(&self, device: Seq<char>, label: Seq<char>) -> Option<CmdLine> {
        Some(("swaplabel"@, seq!["-L"@, label, device]))
    }

    open spec fn spec_uuid(&self, device: Seq<char>, uuid: Seq<char>) -> Option<CmdLine> {
        Some(("swaplabel"@, seq!["-U"@, uuid, device]))
    }

    fn id(&self) -> (r: &'static str) {
        "swap"
    }

    fn mkfs_command(&self, device: &str, label: &str) -> (r: Option<(String, Vec<String>)>) {
        let args = vec!["-L".to_owned(), label.to_owned(), device.to_owned()];
        proof {
            assert(args.deep_view() =~= seq!["-L"@, label@, device@]);
        }
        Some(("mkswap".to_owned(), args))
    }

    fn label_command(&self, device: &str, label: &str) -> (r: Option<(String, Vec<String>)>) {
        let args = vec!["-L".to_owned(), label.to_owned(), device.to_owned()];
        proof {
            assert(args.deep_view() =~= seq!["-L"@, label@, device@]);
        }
        Some(("swaplabel".to_owned(), args))
    }

    fn uuid_command(&self, device: &str, uuid: &str) -> (r: Option<(String, Vec<String>)>) {
        let args = vec!["-U".to_owned(), uuid.to_owned(), device.to_owned()];
        proof {
            assert(args.deep_view() =~= seq!["-U"@, uuid@, device@]);
        }
        Some(("swaplabel".to_owned(), args))
    }
}

/// One driver of the closed registry.
pub enum FsDriver {
    Ext4(Ext4Driver),
    Ntfs(NtfsDriver),
    Btrfs(BtrfsDriver),
    Xfs(XfsDriver),
    F2fs(F2fsDriver),
    Swap(SwapDriver),
}

impl FileSystemDriver for FsDriver {
    open spec fn spec_id(&self) -> Seq<char> {
        match self {
            FsDriver::Ext4(d) => d.spec_id(),
            FsDriver::Ntfs(d) => d.spec_id(),
            FsDriver::Btrfs(d) => d.spec_id(),
            FsDriver::Xfs(d) => d.spec_id(),
            FsDriver::F2fs(d) => d.spec_id(),
            FsDriver::Swap(d) => d.spec_id(),
        }
    }

    open spec fn spec_mkfs(&self, device: Seq<char>, label: Seq<char>) -> Option<CmdLine> {
        match self {
            FsDriver::Ext4(d) => d.spec_mkfs(device, label),
            FsDriver::Ntfs(d) => d.spec_mkfs(device, label),
            FsDriver::Btrfs(d) => d.spec_mkfs(device, label),
            FsDriver::Xfs(d) => d.spec_mkfs(device, label),
            FsDriver::F2fs(d) => d.spec_mkfs(device, label),
            FsDriver::Swap(d) => d.spec_mkfs(device, label),
        }
    }

    open spec fn spec_label(&self, device: Seq<char>, label: Seq<char>) -> Option<CmdLine> {
        match self {
            FsDriver::Ext4(d) => d.spec_label(device, label),
            FsDriver::Ntfs(d) => d.spec_label(device, label),
            FsDriver::Btrfs(d) => d.spec_label(device, label),
            FsDriver::Xfs(d) => d.spec_label(device, label),
            FsDriver::F2fs(d) => d.spec_label(device, label),
            FsDriver::Swap(d) => d.spec_label(device, label),
        }
    }

    open spec fn spec_uuid(&self, device: Seq<char>, uuid: Seq<char>) -> Option<CmdLine> {
        match self {
            FsDriver::Ext4(d) => d.spec_uuid(device, uuid),
            FsDriver::Ntfs(d) => d.spec_uuid(device, uuid),
            FsDriver::Btrfs(d) => d.spec_uuid(device, uuid),
            FsDriver::Xfs(d) => d.spec_uuid(device, uuid),
            FsDriver::F2fs(d) => d.spec_uuid(device, uuid),
            FsDriver::Swap(d) => d.spec_uuid(device, uuid),
        }
    }

    fn id(&self) -> (r: &'static str) {
        match self {
            FsDriver::Ext4(d) => d.id(),
            FsDriver::Ntfs(d) => d.id(),
            FsDriver::Btrfs(d) => d.id(),
            FsDriver::Xfs(d) => d.id(),
            FsDriver::F2fs(d) => d.id(),
            FsDriver::Swap(d) => d.id(),
        }
    }

    fn mkfs_command(&self, device: &str, label: &str) -> (r: Option<(String, Vec<String>)>) {
        match self {
            FsDriver::Ext4(d) => d.mkfs_command(device, label),
            FsDriver::Ntfs(d) => d.mkfs_command(device, label),
            FsDriver::Btrfs(d) => d.mkfs_command(device, label),
            FsDriver::Xfs(d) => d.mkfs_command(device, label),
            FsDriver::F2fs(d) => d.mkfs_command(device, label),
            FsDriver::Swap(d) => d.mkfs_command(device, label),
        }
    }

    fn label_command(&self, device: &str, label: &str) -> (r: Option<(String, Vec<String>)>) {
        match self {
            FsDriver::Ext4(d) => d.label_command(device, label),
            FsDriver::Ntfs(d) => d.label_command(device, label),
            FsDriver::Btrfs(d) => d.label_command(device, label),
            FsDriver::Xfs(d) => d.label_command(device, label),
            FsDriver::F2fs(d) => d.label_command(device, label),
            FsDriver::Swap(d) => d.label_command(device, label),
        }
    }

    fn uuid_command(&self, device: &str, uuid: &str) -> (r: Option<(String, Vec<String>)>) {
        match self {
            FsDriver::Ext4(d) => d.uuid_command(device, uuid),
            FsDriver::Ntfs(d) => d.uuid_command(device, uuid),
            FsDriver::Btrfs(d) => d.uuid_command(device, uuid),
            FsDriver::Xfs(d) => d.uuid_command(device, uuid),
            FsDriver::F2fs(d) => d.uuid_command(device, uuid),
            FsDriver::Swap(d) => d.uuid_command(device, uuid),
        }
    }
}

/// The registry, in its fixed order.
pub fn default_drivers() -> (r: Vec<FsDriver>)
    ensures
        r@.len() == 6,
        r@[0] is Ext4,
        r@[1] is Ntfs,
        r@[2] is Btrfs,
        r@[3] is Xfs,
        r@[4] is F2fs,
        r@[5] is Swap,
{
    vec![
        FsDriver::Ext4(Ext4Driver),
        FsDriver::Ntfs(NtfsDriver),
        FsDriver::Btrfs(BtrfsDriver),
        FsDriver::Xfs(XfsDriver),
        FsDriver::F2fs(F2fsDriver),
        FsDriver::Swap(SwapDriver),
    ]
}

/// A filesystem id served by some driver of the registry.
pub open spec fn has_driver(fs: Seq<char>) -> bool {
    fs == "ext4"@ || fs == "ntfs"@ || fs == "btrfs"@ || fs == "xfs"@ || fs == "f2fs"@ || fs
        == "swap"@
}

/// The driver of the registry that serves an id.
pub open spec fn driver_of(fs: Seq<char>) -> FsDriver {
    if fs == "ext4"@ {
        FsDriver::Ext4(Ext4Driver)
    } else if fs == "ntfs"@ {
        FsDriver::Ntfs(NtfsDriver)
    } else if fs == "btrfs"@ {
        FsDriver::Btrfs(BtrfsDriver)
    } else if fs == "xfs"@ {
        FsDriver::Xfs(XfsDriver)
    } else if fs == "f2fs"@ {
        FsDriver::F2fs(F2fsDriver)
    } else {
        FsDriver::Swap(SwapDriver)
    }
}

/// The driver serving a filesystem id, if any.
pub fn driver_for(fs: &str) -> (r: Option<FsDriver>)
    ensures
        match r {
            Some(d) => has_driver(fs@) && d == driver_of(fs@) && d.spec_id() == fs@,
            None => !has_driver(fs@),
        },
{
    if crate::strutil::str_eq(fs, "ext4") {
        Some(FsDriver::Ext4(Ext4Driver))
    } else if crate::strutil::str_eq(fs, "ntfs") {
        Some(FsDriver::Ntfs(NtfsDriver))
    } else if crate::strutil::str_eq(fs, "btrfs") {
        Some(FsDriver::Btrfs(BtrfsDriver))
    } else if crate::strutil::str_eq(fs, "xfs") {
        Some(FsDriver::Xfs(XfsDriver))
    } else if crate::strutil::str_eq(fs, "f2fs") {
        Some(FsDriver::F2fs(F2fsDriver))
    } else if crate::strutil::str_eq(fs, "swap") {
        Some(FsDriver::Swap(SwapDriver))
    } else {
        None
    }
}

} // verus!
