//! The metadata reader: extraction rules over the property-list trees
//! that the host partition tool reports.  Each logical field consults a
//! small ordered list of keys and takes the first present value; this
//! is the normalisation point between host schema versions.
//!
//! The trees arrive as plain [`JsonValue`] data; the surrounding binary
//! parses the host tool's XML output and hands the tree in.

use vstd::prelude::*;

use crate::device::strip_dev_spec;
use crate::geometry::PartitionInfo;
use crate::json::{get_spec, JsonV, JsonValue};

verus! {

/// The first key whose value is a string.
pub open spec fn first_string(v: JsonV, keys: Seq<Seq<char>>) -> Option<Seq<char>>
    decreases keys.len(),
{
    if keys.len() == 0 {
        None
    } else {
        match get_spec(v, keys[0]) {
            Some(JsonV::Str(s)) => Some(s),
            _ => first_string(v, keys.skip(1)),
        }
    }
}

/// The first key whose value is a number.
pub open spec fn first_u64(v: JsonV, keys: Seq<Seq<char>>) -> Option<u64>
    decreases keys.len(),
{
    if keys.len() == 0 {
        None
    } else {
        match get_spec(v, keys[0]) {
            Some(JsonV::UInt(u)) => Some(u),
            _ => first_u64(v, keys.skip(1)),
        }
    }
}

/// The first key whose value is an array.
pub open spec fn first_array(v: JsonV, keys: Seq<Seq<char>>) -> Option<Seq<JsonV>>
    decreases keys.len(),
{
    if keys.len() == 0 {
        None
    } else {
        match get_spec(v, keys[0]) {
            Some(JsonV::Arr(items)) => Some(items),
            _ => first_array(v, keys.skip(1)),
        }
    }
}

/// The string members of an array, in order.
pub open spec fn strings_of(items: Seq<JsonV>) -> Seq<Seq<char>>
    decreases items.len(),
{
    if items.len() == 0 {
        Seq::empty()
    } else {
        let rest = strings_of(items.drop_last());
        match items.last() {
            JsonV::Str(s) => rest.push(s),
            _ => rest,
        }
    }
}

/// The views of a key list.
pub open spec fn keys_view(keys: Seq<&str>) -> Seq<Seq<char>> {
    Seq::new(keys.len(), |i: int| keys[i]@)
}

/// Read a field as a string, consulting the keys in order.
pub fn plist_string(dict: &JsonValue, keys: &[&str]) -> (r: Option<String>)
    ensures
        match r {
            Some(s) => first_string(dict@, keys_view(keys@)) == Some(s@),
            None => first_string(dict@, keys_view(keys@)) is None,
        },
{
    let n = keys.len();
    proof {
        assert(keys_view(keys@).skip(0) =~= keys_view(keys@));
    }
    let mut i: usize = 0;
    #[verifier::loop_isolation(false)]
    while i < n
        invariant
            i <= n,
            n == keys@.len(),
            first_string(dict@, keys_view(keys@).skip(i as int)) == first_string(
                dict@,
                keys_view(keys@),
            ),
        decreases n - i,
    {
        proof {
            assert(keys_view(keys@).skip(i as int)[0] == keys@[i as int]@);
            assert(keys_view(keys@).skip(i as int).skip(1) =~= keys_view(keys@).skip(i + 1));
        }
        match dict.get(keys[i]) {
            Some(value) => {
                match value.as_str_opt() {
                    Some(s) => {
                        return Some(s.clone());
                    },
                    None => {},
                }
            },
            None => {},
        }
        i = i + 1;
    }
    proof {
        assert(keys_view(keys@).skip(n as int).len() == 0);
    }
    None
}

/// Read a field as a number, consulting the keys in order.
pub fn plist_u64(dict: &JsonValue, keys: &[&str]) -> (r: Option<u64>)
    ensures
        r == first_u64(dict@, keys_view(keys@)),
{
    let n = keys.len();
    proof {
        assert(keys_view(keys@).skip(0) =~= keys_view(keys@));
    }
    let mut i: usize = 0;
    #[verifier::loop_isolation(false)]
    while i < n
        invariant
            i <= n,
            n == keys@.len(),
            first_u64(dict@, keys_view(keys@).skip(i as int)) == first_u64(
                dict@,
                keys_view(keys@),
            ),
        decreases n - i,
    {
        proof {
            assert(keys_view(keys@).skip(i as int)[0] == keys@[i as int]@);
            assert(keys_view(keys@).skip(i as int).skip(1) =~= keys_view(keys@).skip(i + 1));
        }
        match dict.get(keys[i]) {
            Some(value) => {
                match value.as_u64_opt() {
                    Some(u) => {
                        return Some(u);
                    },
                    None => {},
                }
            },
            None => {},
        }
        i = i + 1;
    }
    proof {
        assert(keys_view(keys@).skip(n as int).len() == 0);
    }
    None
}

/// Read a field as the strings of an array, consulting keys in order.
pub fn plist_string_array(dict: &JsonValue, keys: &[&str]) -> (r: Vec<String>)
    ensures
        r.deep_view() == (match first_array(dict@, keys_view(keys@)) {
            Some(items) => strings_of(items),
            None => Seq::<Seq<char>>::empty(),
        }),
{
    let n = keys.len();
    proof {
        assert(keys_view(keys@).skip(0) =~= keys_view(keys@));
    }
    let mut i: usize = 0;
    #[verifier::loop_isolation(false)]
    while i < n
        invariant
            i <= n,
            n == keys@.len(),
            first_array(dict@, keys_view(keys@).skip(i as int)) == first_array(
                dict@,
                keys_view(keys@),
            ),
        decreases n - i,
    {
        proof {
            assert(keys_view(keys@).skip(i as int)[0] == keys@[i as int]@);
            assert(keys_view(keys@).skip(i as int).skip(1) =~= keys_view(keys@).skip(i + 1));
        }
        match dict.get(keys[i]) {
            Some(value) => {
                match value {
                    JsonValue::Arr(items) => {
                        return collect_strings(items);
                    },
                    _ => {},
                }
            },
            None => {},
        }
        i = i + 1;
    }
    proof {
        assert(keys_view(keys@).skip(n as int).len() == 0);
    }
    Vec::new()
}

/// Collect the string members of an array.
fn collect_strings(items: &Vec<JsonValue>) -> (r: Vec<String>)
    ensures
        r.deep_view() == strings_of(crate::json::jv_seq(items@)),
{
    let ghost iv = crate::json::jv_seq(items@);
    proof {
        crate::json::lemma_jv_seq(items@);
    }
    let n = items.len();
    let mut r: Vec<String> = Vec::new();
    let mut i: usize = 0;
    #[verifier::loop_isolation(false)]
    while i < n
        invariant
            i <= n,
            n == items@.len(),
            r.deep_view() == strings_of(iv.subrange(0, i as int)),
        decreases n - i,
    {
        proof {
            let pre1 = iv.subrange(0, i + 1);
            assert(pre1.drop_last() =~= iv.subrange(0, i as int));
            assert(pre1.last() == iv[i as int]);
        }
        match items[i].as_str_opt() {
            Some(s) => {
                r.push(s.clone());
                proof {
                    assert(r.deep_view() =~= strings_of(iv.subrange(0, i + 1)));
                }
            },
            None => {},
        }
        i = i + 1;
    }
    proof {
        assert(iv.subrange(0, n as int) =~= iv);
    }
    r
}

/// The mount point of a device, when its info reports one.
pub fn read_mount_point_from(dict: &JsonValue) -> (r: Option<String>)
    ensures
        match r {
            Some(s) => first_string(dict@, seq!["MountPoint"@]) == Some(s@),
            None => first_string(dict@, seq!["MountPoint"@]) is None,
        },
{
    let keys: [&str; 1] = ["MountPoint"];
    let r = plist_string(dict, keys.as_slice());
    proof {
        assert(keys_view(keys@) =~= seq!["MountPoint"@]);
    }
    r
}

/// The used byte count of a volume, by the documented fall-back keys.
pub fn volume_used_bytes_from(dict: &JsonValue) -> (r: Option<u64>)
    ensures
        r == first_u64(dict@, seq!["VolumeUsedSpace"@, "UsedSpace"@, "VolumeAllocatedSpace"@]),
{
    let keys: [&str; 3] = ["VolumeUsedSpace", "UsedSpace", "VolumeAllocatedSpace"];
    let r = plist_u64(dict, keys.as_slice());
    proof {
        assert(keys_view(keys@) =~= seq![
            "VolumeUsedSpace"@,
            "UsedSpace"@,
            "VolumeAllocatedSpace"@,
        ]);
    }
    r
}

/// The total size of a device, as the flash size check reads it.
pub fn read_disk_size_from(dict: &JsonValue) -> (r: Option<u64>)
    ensures
        r == first_u64(dict@, seq!["TotalSize"@, "Size"@]),
{
    let keys: [&str; 2] = ["TotalSize", "Size"];
    let r = plist_u64(dict, keys.as_slice());
    proof {
        assert(keys_view(keys@) =~= seq!["TotalSize"@, "Size"@]);
    }
    r
}

/// The total size of a whole disk, as the geometry reader reads it.
pub fn disk_total_size_from(dict: &JsonValue) -> (r: Option<u64>)
    ensures
        r == first_u64(dict@, seq!["TotalSize"@, "DiskSize"@]),
{
    let keys: [&str; 2] = ["TotalSize", "DiskSize"];
    let r = plist_u64(dict, keys.as_slice());
    proof {
        assert(keys_view(keys@) =~= seq!["TotalSize"@, "DiskSize"@]);
    }
    r
}

/// The filesystem-tag candidate fields of a device info, in fusion
/// order: filesystem type, personality type, content hint.
pub fn fs_candidates_from(dict: &JsonValue) -> (r: Vec<String>)
    ensures
        r.deep_view() == candidates_spec(dict@),
{
    let mut r: Vec<String> = Vec::new();
    let k1: [&str; 1] = ["FilesystemType"];
    let k2: [&str; 1] = ["Type"];
    let k3: [&str; 1] = ["Content"];
    proof {
        assert(keys_view(k1@) =~= seq!["FilesystemType"@]);
        assert(keys_view(k2@) =~= seq!["Type"@]);
        assert(keys_view(k3@) =~= seq!["Content"@]);
    }
    match plist_string(dict, k1.as_slice()) {
        Some(s) => {
            r.push(s);
        },
        None => {},
    }
    match plist_string(dict, k2.as_slice()) {
        Some(s) => {
            r.push(s);
        },
        None => {},
    }
    match plist_string(dict, k3.as_slice()) {
        Some(s) => {
            r.push(s);
        },
        None => {},
    }
    proof {
        assert(r.deep_view() =~= candidates_spec(dict@));
    }
    r
}

/// The candidate fields present in a device info, in fusion order.
pub open spec fn candidates_spec(v: JsonV) -> Seq<Seq<char>> {
    let one = match first_string(v, seq!["FilesystemType"@]) {
        Some(s) => seq![s],
        None => Seq::empty(),
    };
    let two = match first_string(v, seq!["Type"@]) {
        Some(s) => one.push(s),
        None => one,
    };
    match first_string(v, seq!["Content"@]) {
        Some(s) => two.push(s),
        None => two,
    }
}

/// The fused filesystem tag of a device info.
pub fn detect_fs_type_from(dict: &JsonValue) -> (r: String)
    ensures
        r@ == crate::fstype::fuse_raw(candidates_spec(dict@)),
{
    let candidates = fs_candidates_from(dict);
    crate::fstype::fuse_fs_type(&candidates)
}

/// The partition geometry read from a device info, with the highest
/// legal end supplied from the disk scan.  Each missing required field
/// names itself; the sector size falls back to 512.
pub fn partition_info_from(dict: &JsonValue, max_end: u64) -> (r: Result<PartitionInfo, String>)
    ensures
        match r {
            Ok(info) => {
                &&& first_u64(dict@, seq!["PartitionOffset"@]) == Some(info.partition_offset)
                &&& first_u64(dict@, seq!["PartitionSize"@]) == Some(info.partition_size)
                &&& info.block_size == (match first_u64(dict@, seq!["DeviceBlockSize"@]) {
                    Some(b) => b,
                    None => 512,
                })
                &&& first_string(dict@, seq!["ParentWholeDisk"@]) matches Some(d) && info@.disk
                    == "/dev/"@ + d
                &&& first_string(dict@, seq!["DeviceIdentifier"@]) matches Some(i) && info@.device
                    == "/dev/"@ + i
                &&& info.min_start == info.partition_offset
                &&& info.max_end == max_end
            },
            Err(e) => {
                ||| (first_u64(dict@, seq!["PartitionOffset"@]) is None && e@
                    == "PartitionOffset missing"@)
                ||| (first_u64(dict@, seq!["PartitionSize"@]) is None && e@
                    == "PartitionSize missing"@)
                ||| (first_string(dict@, seq!["ParentWholeDisk"@]) is None && e@
                    == "ParentWholeDisk missing"@)
                ||| (first_string(dict@, seq!["DeviceIdentifier"@]) is None && e@
                    == "DeviceIdentifier missing"@)
            },
        },
{
    let ko: [&str; 1] = ["PartitionOffset"];
    let ks: [&str; 1] = ["PartitionSize"];
    let kb: [&str; 1] = ["DeviceBlockSize"];
    let kp: [&str; 1] = ["ParentWholeDisk"];
    let kd: [&str; 1] = ["DeviceIdentifier"];
    proof {
        assert(keys_view(ko@) =~= seq!["PartitionOffset"@]);
        assert(keys_view(ks@) =~= seq!["PartitionSize"@]);
        assert(keys_view(kb@) =~= seq!["DeviceBlockSize"@]);
        assert(keys_view(kp@) =~= seq!["ParentWholeDisk"@]);
        assert(keys_view(kd@) =~= seq!["DeviceIdentifier"@]);
    }
    let partition_offset = match plist_u64(dict, ko.as_slice()) {
        Some(v) => v,
        None => {
            return Err(String::from_str("PartitionOffset missing"));
        },
    };
    let partition_size = match plist_u64(dict, ks.as_slice()) {
        Some(v) => v,
        None => {
            return Err(String::from_str("PartitionSize missing"));
        },
    };
    let block_size = match plist_u64(dict, kb.as_slice()) {
        Some(v) => v,
        None => 512,
    };
    let disk = match plist_string(dict, kp.as_slice()) {
        Some(s) => {
            let d = String::from_str("/dev/");
            d.concat(s.as_str())
        },
        None => {
            return Err(String::from_str("ParentWholeDisk missing"));
        },
    };
    let device = match plist_string(dict, kd.as_slice()) {
        Some(s) => {
            let d = String::from_str("/dev/");
            d.concat(s.as_str())
        },
        None => {
            return Err(String::from_str("DeviceIdentifier missing"));
        },
    };
    Ok(
        PartitionInfo {
            device,
            disk,
            partition_offset,
            partition_size,
            block_size,
            min_start: partition_offset,
            max_end,
        },
    )
}

/// The identifiers under a disk's `Partitions` array.
pub open spec fn partition_ids_spec(v: JsonV) -> Seq<Seq<char>> {
    match get_spec(v, "Partitions"@) {
        Some(JsonV::Arr(parts)) => ids_of(parts),
        _ => Seq::empty(),
    }
}

/// The `DeviceIdentifier` strings of the dictionaries in a list.
pub open spec fn ids_of(parts: Seq<JsonV>) -> Seq<Seq<char>>
    decreases parts.len(),
{
    if parts.len() == 0 {
        Seq::empty()
    } else {
        let rest = ids_of(parts.drop_last());
        match first_string(parts.last(), seq!["DeviceIdentifier"@]) {
            Some(s) => rest.push(s),
            None => rest,
        }
    }
}

/// List the partition identifiers of a disk's listing.
pub fn list_disk_partitions_from(dict: &JsonValue) -> (r: Vec<String>)
    ensures
        r.deep_view() == partition_ids_spec(dict@),
{
    let kd: [&str; 1] = ["DeviceIdentifier"];
    proof {
        assert(keys_view(kd@) =~= seq!["DeviceIdentifier"@]);
    }
    let mut r: Vec<String> = Vec::new();
    match dict.get("Partitions") {
        Some(value) => {
            match value {
                JsonValue::Arr(parts) => {
                    let ghost pv = crate::json::jv_seq(parts@);
                    proof {
                        crate::json::lemma_jv_seq(parts@);
                    }
                    let n = parts.len();
                    let mut i: usize = 0;
                    #[verifier::loop_isolation(false)]
                    while i < n
                        invariant
                            i <= n,
                            n == parts@.len(),
                            r.deep_view() == ids_of(pv.subrange(0, i as int)),
                        decreases n - i,
                    {
                        proof {
                            let pre1 = pv.subrange(0, i + 1);
                            assert(pre1.drop_last() =~= pv.subrange(0, i as int));
                            assert(pre1.last() == pv[i as int]);
                        }
                        match plist_string(&parts[i], kd.as_slice()) {
                            Some(s) => {
                                r.push(s);
                                proof {
                                    assert(r.deep_view() =~= ids_of(pv.subrange(0, i + 1)));
                                }
                            },
                            None => {},
                        }
                        i = i + 1;
                    }
                    proof {
                        assert(pv.subrange(0, n as int) =~= pv);
                    }
                    r
                },
                _ => r,
            }
        },
        None => r,
    }
}

/// A role list marks a boot volume: it holds `System` or `Data`.
pub open spec fn roles_mark_boot(roles: Seq<Seq<char>>) -> bool {
    exists|i: int| 0 <= i < roles.len() && (roles[i] == "System"@ || roles[i] == "Data"@)
}

/// Whether a role list marks the volume as part of the host OS.
pub fn is_boot_roles(roles: &Vec<String>) -> (r: bool)
    ensures
        r == roles_mark_boot(roles.deep_view()),
{
    let n = roles.len();
    let mut i: usize = 0;
    #[verifier::loop_isolation(false)]
    while i < n
        invariant
            i <= n,
            n == roles@.len(),
            forall|k: int|
                0 <= k < i ==> !(roles.deep_view()[k] == "System"@ || roles.deep_view()[k]
                    == "Data"@),
        decreases n - i,
    {
        proof {
            assert(roles.deep_view()[i as int] == roles@[i as int]@);
        }
        if crate::strutil::str_eq(roles[i].as_str(), "System") || crate::strutil::str_eq(
            roles[i].as_str(),
            "Data",
        ) {
            return true;
        }
        i = i + 1;
    }
    proof {
        assert forall|k: int| 0 <= k < roles.deep_view().len() implies !(roles.deep_view()[k]
            == "System"@ || roles.deep_view()[k] == "Data"@) by {
            assert(roles.deep_view()[k] == roles@[k]@);
        }
    }
    false
}

/// A role is protected: the volume belongs to the host OS installation.
pub open spec fn is_protected_role(role: Seq<char>) -> bool {
    role == "System"@ || role == "Data"@ || role == "Preboot"@ || role == "Recovery"@ || role
        == "VM"@
}

/// The protection verdict over a volume's roles: an internal volume
/// with a protected role is marked, with the fixed reason text.
pub fn partition_protection(roles: &Vec<String>, internal: bool) -> (r: (bool, Option<String>))
    ensures
        r.0 == (internal && exists|i: int|
            0 <= i < roles.deep_view().len() && is_protected_role(roles.deep_view()[i])),
        r.0 ==> (r.1 matches Some(reason) && reason@ == "System-Volume (SIP geschuetzt)"@),
        !r.0 ==> r.1 is None,
{
    if !internal {
        return (false, None);
    }
    let n = roles.len();
    let mut i: usize = 0;
    #[verifier::loop_isolation(false)]
    while i < n
        invariant
            i <= n,
            n == roles@.len(),
            forall|k: int| 0 <= k < i ==> !is_protected_role(roles.deep_view()[k]),
        decreases n - i,
    {
        proof {
            assert(roles.deep_view()[i as int] == roles@[i as int]@);
        }
        let s = roles[i].as_str();
        if crate::strutil::str_eq(s, "System") || crate::strutil::str_eq(s, "Data")
            || crate::strutil::str_eq(s, "Preboot") || crate::strutil::str_eq(s, "Recovery")
            || crate::strutil::str_eq(s, "VM") {
            return (true, Some(String::from_str("System-Volume (SIP geschuetzt)")));
        }
        i = i + 1;
    }
    proof {
        assert forall|k: int| 0 <= k < roles.deep_view().len() implies !is_protected_role(
            roles.deep_view()[k],
        ) by {
            assert(roles.deep_view()[k] == roles@[k]@);
        }
    }
    (false, None)
}

/// The container's own reference carries the identifier.
pub open spec fn ref_matches(c: JsonV, needle: Seq<char>) -> bool {
    match first_string(
        c,
        seq!["ContainerReference"@, "DeviceIdentifier"@, "ContainerIdentifier"@],
    ) {
        Some(s) => strip_dev_spec(s) == needle,
        None => false,
    }
}

/// A container dictionary matches the needle: its reference, one of its
/// physical stores, or one of its volumes carries the identifier, each
/// compared with the leading `/dev/` stripped.
pub open spec fn container_matches_spec(c: JsonV, needle: Seq<char>) -> bool {
    ||| ref_matches(c, needle)
    ||| any_id_matches(stores_of(c), seq!["DeviceIdentifier"@], needle)
    ||| any_id_matches(volumes_of(c), seq!["DeviceIdentifier"@, "DeviceReference"@], needle)
}

/// The physical-store entries of a container, by either key.
pub open spec fn stores_of(c: JsonV) -> Seq<JsonV> {
    match first_array(c, seq!["PhysicalStores"@, "APFSPhysicalStores"@]) {
        Some(items) => items,
        None => Seq::empty(),
    }
}

/// The volume entries of a container, by either key.
pub open spec fn volumes_of(c: JsonV) -> Seq<JsonV> {
    match first_array(c, seq!["Volumes"@, "APFSVolumes"@]) {
        Some(items) => items,
        None => Seq::empty(),
    }
}

/// Some entry's identifier, stripped, equals the needle.
pub open spec fn any_id_matches(items: Seq<JsonV>, keys: Seq<Seq<char>>, needle: Seq<char>) -> bool
    decreases items.len(),
{
    if items.len() == 0 {
        false
    } else {
        let head = match first_string(items[0], keys) {
            Some(s) => strip_dev_spec(s) == needle,
            None => false,
        };
        head || any_id_matches(items.skip(1), keys, needle)
    }
}

/// Check one identifier list for the needle.
fn scan_ids(items: &Vec<JsonValue>, keys: &[&str], needle: &str) -> (r: bool)
    ensures
        r == any_id_matches(crate::json::jv_seq(items@), keys_view(keys@), needle@),
{
    let ghost iv = crate::json::jv_seq(items@);
    proof {
        crate::json::lemma_jv_seq(items@);
        assert(iv.skip(0) =~= iv);
    }
    let n = items.len();
    let mut i: usize = 0;
    #[verifier::loop_isolation(false)]
    while i < n
        invariant
            i <= n,
            n == items@.len(),
            any_id_matches(iv.skip(i as int), keys_view(keys@), needle@) == any_id_matches(
                iv,
                keys_view(keys@),
                needle@,
            ),
        decreases n - i,
    {
        proof {
            assert(iv.skip(i as int)[0] == iv[i as int]);
            assert(iv.skip(i as int).skip(1) =~= iv.skip(i + 1));
        }
        match plist_string(&items[i], keys) {
            Some(s) => {
                let stripped = crate::device::strip_device_prefix(s.as_str());
                if crate::strutil::str_eq(stripped.as_str(), needle) {
                    return true;
                }
            },
            None => {},
        }
        i = i + 1;
    }
    proof {
        assert(iv.skip(n as int).len() == 0);
    }
    false
}

/// Whether a container dictionary matches the caller's identifier.
pub fn container_matches(container: &JsonValue, needle: &str) -> (r: bool)
    ensures
        r == container_matches_spec(container@, needle@),
{
    let kr: [&str; 3] = ["ContainerReference", "DeviceIdentifier", "ContainerIdentifier"];
    let ks: [&str; 2] = ["PhysicalStores", "APFSPhysicalStores"];
    let kv: [&str; 2] = ["Volumes", "APFSVolumes"];
    let ki: [&str; 1] = ["DeviceIdentifier"];
    let kvi: [&str; 2] = ["DeviceIdentifier", "DeviceReference"];
    proof {
        assert(keys_view(kr@) =~= seq![
            "ContainerReference"@,
            "DeviceIdentifier"@,
            "ContainerIdentifier"@,
        ]);
        assert(keys_view(ks@) =~= seq!["PhysicalStores"@, "APFSPhysicalStores"@]);
        assert(keys_view(kv@) =~= seq!["Volumes"@, "APFSVolumes"@]);
        assert(keys_view(ki@) =~= seq!["DeviceIdentifier"@]);
        assert(keys_view(kvi@) =~= seq!["DeviceIdentifier"@, "DeviceReference"@]);
    }
    match plist_string(container, kr.as_slice()) {
        Some(reference) => {
            let stripped = crate::device::strip_device_prefix(reference.as_str());
            if crate::strutil::str_eq(stripped.as_str(), needle) {
                return true;
            }
        },
        None => {},
    }
    let store_hit = match first_array_of(container, ks.as_slice()) {
        Some(items) => scan_ids(items, ki.as_slice(), needle),
        None => {
            proof {
                assert(any_id_matches(
                    Seq::<JsonV>::empty(),
                    keys_view(ki@),
                    needle@,
                ) == false);
            }
            false
        },
    };
    if store_hit {
        return true;
    }
    let volume_hit = match first_array_of(container, kv.as_slice()) {
        Some(items) => scan_ids(items, kvi.as_slice(), needle),
        None => false,
    };
    volume_hit
}

/// The first key holding an array, as a borrowed vector.
fn first_array_of<'a>(dict: &'a JsonValue, keys: &[&str]) -> (r: Option<&'a Vec<JsonValue>>)
    ensures
        match r {
            Some(items) => first_array(dict@, keys_view(keys@)) == Some(
                crate::json::jv_seq(items@),
            ),
            None => first_array(dict@, keys_view(keys@)) is None,
        },
{
    let n = keys.len();
    proof {
        assert(keys_view(keys@).skip(0) =~= keys_view(keys@));
    }
    let mut i: usize = 0;
    #[verifier::loop_isolation(false)]
    while i < n
        invariant
            i <= n,
            n == keys@.len(),
            first_array(dict@, keys_view(keys@).skip(i as int)) == first_array(
                dict@,
                keys_view(keys@),
            ),
        decreases n - i,
    {
        proof {
            assert(keys_view(keys@).skip(i as int)[0] == keys@[i as int]@);
            assert(keys_view(keys@).skip(i as int).skip(1) =~= keys_view(keys@).skip(i + 1));
        }
        match dict.get(keys[i]) {
            Some(value) => {
                match value {
                    JsonValue::Arr(items) => {
                        return Some(items);
                    },
                    _ => {},
                }
            },
            None => {},
        }
        i = i + 1;
    }
    proof {
        assert(keys_view(keys@).skip(n as int).len() == 0);
    }
    None
}

/// The identifier of the first partition whose volume name equals the
/// label, walking all disks in document order; empty identifiers are
/// passed over.
pub open spec fn label_search_spec(v: JsonV, label: Seq<char>) -> Option<Seq<char>> {
    match get_spec(v, "AllDisksAndPartitions"@) {
        Some(JsonV::Arr(disks)) => label_in_disks(disks, label),
        _ => None,
    }
}

/// Search the disk list.
pub open spec fn label_in_disks(disks: Seq<JsonV>, label: Seq<char>) -> Option<Seq<char>>
    decreases disks.len(),
{
    if disks.len() == 0 {
        None
    } else {
        match label_in_parts(parts_of(disks[0]), label) {
            Some(id) => Some(id),
            None => label_in_disks(disks.skip(1), label),
        }
    }
}

/// The `Partitions` array of one disk entry.
pub open spec fn parts_of(d: JsonV) -> Seq<JsonV> {
    match get_spec(d, "Partitions"@) {
        Some(JsonV::Arr(parts)) => parts,
        _ => Seq::empty(),
    }
}

/// Search one partition list.
pub open spec fn label_in_parts(parts: Seq<JsonV>, label: Seq<char>) -> Option<Seq<char>>
    decreases parts.len(),
{
    if parts.len() == 0 {
        None
    } else {
        let name = match first_string(parts[0], seq!["VolumeName"@]) {
            Some(s) => s,
            None => ""@,
        };
        let id = match first_string(parts[0], seq!["DeviceIdentifier"@]) {
            Some(s) => s,
            None => ""@,
        };
        if name == label && id.len() > 0 {
            Some(id)
        } else {
            label_in_parts(parts.skip(1), label)
        }
    }
}

/// Find the partition that a throwaway label names.
pub fn find_partition_by_label_in(listing: &JsonValue, label: &str) -> (r: Option<String>)
    ensures
        match r {
            Some(id) => label_search_spec(listing@, label@) == Some(id@),
            None => label_search_spec(listing@, label@) is None,
        },
{
    let kn: [&str; 1] = ["VolumeName"];
    let kd: [&str; 1] = ["DeviceIdentifier"];
    proof {
        assert(keys_view(kn@) =~= seq!["VolumeName"@]);
        assert(keys_view(kd@) =~= seq!["DeviceIdentifier"@]);
        reveal_strlit("");
    }
    match listing.get("AllDisksAndPartitions") {
        Some(value) => {
            match value {
                JsonValue::Arr(disks) => {
                    let ghost dv = crate::json::jv_seq(disks@);
                    proof {
                        crate::json::lemma_jv_seq(disks@);
                        assert(dv.skip(0) =~= dv);
                    }
                    let n = disks.len();
                    let mut i: usize = 0;
                    #[verifier::loop_isolation(false)]
                    while i < n
                        invariant
                            i <= n,
                            n == disks@.len(),
                            label_in_disks(dv.skip(i as int), label@) == label_in_disks(
                                dv,
                                label@,
                            ),
                        decreases n - i,
                    {
                        proof {
                            assert(dv.skip(i as int)[0] == dv[i as int]);
                            assert(dv.skip(i as int).skip(1) =~= dv.skip(i + 1));
                        }
                        match disks[i].get("Partitions") {
                            Some(pvalue) => {
                                match pvalue {
                                    JsonValue::Arr(parts) => {
                                        match scan_parts_for_label(parts, label) {
                                            Some(id) => {
                                                return Some(id);
                                            },
                                            None => {},
                                        }
                                    },
                                    _ => {
                                        proof {
                                            assert(label_in_parts(
                                                parts_of(dv[i as int]),
                                                label@,
                                            ) is None);
                                        }
                                    },
                                }
                            },
                            None => {
                                proof {
                                    assert(label_in_parts(parts_of(dv[i as int]), label@)
                                        is None);
                                }
                            },
                        }
                        i = i + 1;
                    }
                    proof {
                        assert(dv.skip(n as int).len() == 0);
                    }
                    None
                },
                _ => None,
            }
        },
        None => None,
    }
}

/// Search one disk's partition list for the label.
fn scan_parts_for_label(parts: &Vec<JsonValue>, label: &str) -> (r: Option<String>)
    ensures
        match r {
            Some(id) => label_in_parts(crate::json::jv_seq(parts@), label@) == Some(id@),
            None => label_in_parts(crate::json::jv_seq(parts@), label@) is None,
        },
{
    let kn: [&str; 1] = ["VolumeName"];
    let kd: [&str; 1] = ["DeviceIdentifier"];
    let ghost pv = crate::json::jv_seq(parts@);
    proof {
        crate::json::lemma_jv_seq(parts@);
        assert(pv.skip(0) =~= pv);
        assert(keys_view(kn@) =~= seq!["VolumeName"@]);
        assert(keys_view(kd@) =~= seq!["DeviceIdentifier"@]);
        reveal_strlit("");
    }
    let n = parts.len();
    let mut i: usize = 0;
    #[verifier::loop_isolation(false)]
    while i < n
        invariant
            i <= n,
            n == parts@.len(),
            label_in_parts(pv.skip(i as int), label@) == label_in_parts(pv, label@),
        decreases n - i,
    {
        proof {
            assert(pv.skip(i as int)[0] == pv[i as int]);
            assert(pv.skip(i as int).skip(1) =~= pv.skip(i + 1));
        }
        proof {
            assert(parts@[i as int]@ == pv[i as int]);
        }
        let name: String = match plist_string(&parts[i], kn.as_slice()) {
            Some(s) => s,
            None => String::new(),
        };
        let id: String = match plist_string(&parts[i], kd.as_slice()) {
            Some(s) => s,
            None => String::new(),
        };
        proof {
            assert(name@ == (match first_string(pv[i as int], seq!["VolumeName"@]) {
                Some(s) => s,
                None => ""@,
            }));
            assert(id@ == (match first_string(pv[i as int], seq!["DeviceIdentifier"@]) {
                Some(s) => s,
                None => ""@,
            }));
        }
        if crate::strutil::str_eq(name.as_str(), label) && id.as_str().unicode_len() > 0 {
            return Some(id);
        }
        i = i + 1;
    }
    proof {
        assert(pv.skip(n as int).len() == 0);
    }
    None
}

/// The first container of a listing that matches the needle.
pub open spec fn first_container(containers: Seq<JsonV>, needle: Seq<char>) -> Option<JsonV>
    decreases containers.len(),
{
    if containers.len() == 0 {
        None
    } else if container_matches_spec(containers[0], needle) {
        Some(containers[0])
    } else {
        first_container(containers.skip(1), needle)
    }
}

/// String values as JSON strings, in order.
pub open spec fn str_values(s: Seq<Seq<char>>) -> Seq<JsonV>
    decreases s.len(),
{
    if s.len() == 0 {
        Seq::empty()
    } else {
        str_values(s.drop_last()).push(JsonV::Str(s.last()))
    }
}

/// The JSON shape reported for one APFS volume entry.
pub open spec fn volume_shape(v: JsonV) -> JsonV {
    let identifier = match first_string(v, seq!["DeviceIdentifier"@, "DeviceReference"@]) {
        Some(s) => s,
        None => Seq::empty(),
    };
    let name = match first_string(v, seq!["Name"@, "VolumeName"@]) {
        Some(s) => s,
        None => Seq::empty(),
    };
    let roles = match first_array(v, seq!["Roles"@, "APFSVolumeRoles"@]) {
        Some(items) => strings_of(items),
        None => Seq::empty(),
    };
    let used = match first_u64(v, seq!["CapacityInUse"@, "CapacityInUseBytes"@, "CapacityUsed"@]) {
        Some(u) => u,
        None => 0,
    };
    let mount = match first_string(v, seq!["MountPoint"@]) {
        Some(s) => JsonV::Str(s),
        None => JsonV::Null,
    };
    JsonV::Obj(
        seq![
            ("identifier"@, JsonV::Str(identifier)),
            ("name"@, JsonV::Str(name)),
            ("roles"@, JsonV::Arr(str_values(roles))),
            ("size"@, JsonV::UInt(used)),
            ("used"@, JsonV::UInt(used)),
            ("mountPoint"@, mount),
        ],
    )
}

/// The shapes of the volume entries, in order.
pub open spec fn volume_shapes(s: Seq<JsonV>) -> Seq<JsonV>
    decreases s.len(),
{
    if s.len() == 0 {
        Seq::empty()
    } else {
        volume_shapes(s.drop_last()).push(volume_shape(s.last()))
    }
}

/// The JSON shape reported for a matched container: its identity, the
/// capacity figures, and one entry per volume in order.
pub open spec fn container_shape(c: JsonV, needle: Seq<char>) -> JsonV {
    let id = match first_string(
        c,
        seq!["ContainerReference"@, "DeviceIdentifier"@, "ContainerIdentifier"@],
    ) {
        Some(s) => s,
        None => needle,
    };
    let uuid = match first_string(c, seq!["APFSContainerUUID"@, "ContainerUUID"@]) {
        Some(s) => JsonV::Str(s),
        None => JsonV::Null,
    };
    let capacity = opt_uint(first_u64(c, seq!["CapacityCeiling"@, "Capacity"@]));
    let free = opt_uint(first_u64(c, seq!["CapacityFree"@]));
    let used = opt_uint(first_u64(c, seq!["CapacityInUse"@, "CapacityUsed"@]));
    JsonV::Obj(
        seq![
            ("containerIdentifier"@, JsonV::Str(id)),
            ("containerUuid"@, uuid),
            ("capacity"@, capacity),
            ("capacityFree"@, free),
            ("capacityUsed"@, used),
            ("volumes"@, JsonV::Arr(volume_shapes(volumes_of(c)))),
        ],
    )
}

/// An optional number as a JSON value.
pub open spec fn opt_uint(v: Option<u64>) -> JsonV {
    match v {
        Some(u) => JsonV::UInt(u),
        None => JsonV::Null,
    }
}

/// What the volume listing reports for a needle: the shape of the first
/// matching container of the `Containers` array, or the two errors of a
/// malformed listing and an unknown container.
pub open spec fn apfs_listing_spec(listing: JsonV, needle: Seq<char>) -> Result<JsonV, Seq<char>> {
    match get_spec(listing, "Containers"@) {
        Some(JsonV::Arr(containers)) => match first_container(containers, needle) {
            Some(c) => Ok(container_shape(c, needle)),
            None => Err("APFS container not found"@),
        },
        _ => Err("Invalid APFS plist structure"@),
    }
}

/// Build the report of one volume entry.
fn build_volume(v: &JsonValue) -> (r: JsonValue)
    ensures
        r@ == volume_shape(v@),
{
    let ki: [&str; 2] = ["DeviceIdentifier", "DeviceReference"];
    let kn: [&str; 2] = ["Name", "VolumeName"];
    let kr: [&str; 2] = ["Roles", "APFSVolumeRoles"];
    let ku: [&str; 3] = ["CapacityInUse", "CapacityInUseBytes", "CapacityUsed"];
    let km: [&str; 1] = ["MountPoint"];
    proof {
        assert(keys_view(ki@) =~= seq!["DeviceIdentifier"@, "DeviceReference"@]);
        assert(keys_view(kn@) =~= seq!["Name"@, "VolumeName"@]);
        assert(keys_view(kr@) =~= seq!["Roles"@, "APFSVolumeRoles"@]);
        assert(keys_view(ku@) =~= seq![
            "CapacityInUse"@,
            "CapacityInUseBytes"@,
            "CapacityUsed"@,
        ]);
        assert(keys_view(km@) =~= seq!["MountPoint"@]);
        reveal_strlit("");
    }
    let identifier: String = match plist_string(v, ki.as_slice()) {
        Some(s) => s,
        None => String::new(),
    };
    let name: String = match plist_string(v, kn.as_slice()) {
        Some(s) => s,
        None => String::new(),
    };
    let roles = plist_string_array(v, kr.as_slice());
    let used = match plist_u64(v, ku.as_slice()) {
        Some(u) => u,
        None => 0,
    };
    let mount: JsonValue = match plist_string(v, km.as_slice()) {
        Some(s) => JsonValue::Str(s),
        None => JsonValue::Null,
    };
    let mut role_values: Vec<JsonValue> = Vec::new();
    let rn = roles.len();
    let mut i: usize = 0;
    let mut rest = roles;
    #[verifier::loop_isolation(false)]
    while i < rn
        invariant
            i <= rn,
            rn == rest@.len(),
            rest.deep_view() == (match first_array(v@, seq!["Roles"@, "APFSVolumeRoles"@]) {
                Some(items) => strings_of(items),
                None => Seq::<Seq<char>>::empty(),
            }),
            crate::json::jv_seq(role_values@) =~= str_values(
                rest.deep_view().subrange(0, i as int),
            ),
        decreases rn - i,
    {
        proof {
            crate::json::lemma_jv_seq(role_values@);
        }
        role_values.push(JsonValue::Str(rest[i].clone()));
        proof {
            crate::json::lemma_jv_seq(role_values@);
            let pre1 = rest.deep_view().subrange(0, i + 1);
            assert(pre1.drop_last() =~= rest.deep_view().subrange(0, i as int));
            assert(pre1.last() == rest.deep_view()[i as int]);
            assert(crate::json::jv_seq(role_values@) =~= str_values(pre1));
        }
        i = i + 1;
    }
    proof {
        assert(rest.deep_view().subrange(0, rn as int) =~= rest.deep_view());
    }
    let r = JsonValue::Obj(vec![
        (String::from_str("identifier"), JsonValue::Str(identifier)),
        (String::from_str("name"), JsonValue::Str(name)),
        (String::from_str("roles"), JsonValue::Arr(role_values)),
        (String::from_str("size"), JsonValue::UInt(used)),
        (String::from_str("used"), JsonValue::UInt(used)),
        (String::from_str("mountPoint"), mount),
    ]);
    proof {
        crate::json::lemma_jv_fields(r->Obj_0@);
        assert(r@->Obj_0 =~= volume_shape(v@)->Obj_0);
    }
    r
}

/// Answer a volume-listing request: find the container the needle names
/// and report its identity, capacities and volumes.
pub fn apfs_list_volumes_details(listing: &JsonValue, needle: &str) -> (r: Result<
    JsonValue,
    String,
>)
    ensures
        match r {
            Ok(d) => apfs_listing_spec(listing@, needle@) == Ok::<_, Seq<char>>(d@),
            Err(e) => apfs_listing_spec(listing@, needle@) == Err::<JsonV, _>(e@),
        },
{
    let containers: &Vec<JsonValue> = match listing.get("Containers") {
        Some(value) => match value {
            JsonValue::Arr(items) => items,
            _ => {
                return Err(String::from_str("Invalid APFS plist structure"));
            },
        },
        None => {
            return Err(String::from_str("Invalid APFS plist structure"));
        },
    };
    let ghost cv = crate::json::jv_seq(containers@);
    proof {
        crate::json::lemma_jv_seq(containers@);
        assert(cv.skip(0) =~= cv);
    }
    let n = containers.len();
    let mut i: usize = 0;
    #[verifier::loop_isolation(false)]
    while i < n
        invariant
            i <= n,
            n == containers@.len(),
            first_container(cv.skip(i as int), needle@) == first_container(cv, needle@),
        decreases n - i,
    {
        proof {
            assert(cv.skip(i as int)[0] == cv[i as int]);
            assert(cv.skip(i as int).skip(1) =~= cv.skip(i + 1));
        }
        if container_matches(&containers[i], needle) {
            return Ok(build_container(&containers[i], needle));
        }
        i = i + 1;
    }
    proof {
        assert(cv.skip(n as int).len() == 0);
    }
    Err(String::from_str("APFS container not found"))
}

/// Build the report of a matched container.
fn build_container(c: &JsonValue, needle: &str) -> (r: JsonValue)
    ensures
        r@ == container_shape(c@, needle@),
{
    let kr: [&str; 3] = ["ContainerReference", "DeviceIdentifier", "ContainerIdentifier"];
    let kuu: [&str; 2] = ["APFSContainerUUID", "ContainerUUID"];
    let kc: [&str; 2] = ["CapacityCeiling", "Capacity"];
    let kf: [&str; 1] = ["CapacityFree"];
    let kused: [&str; 2] = ["CapacityInUse", "CapacityUsed"];
    let kv: [&str; 2] = ["Volumes", "APFSVolumes"];
    proof {
        assert(keys_view(kr@) =~= seq![
            "ContainerReference"@,
            "DeviceIdentifier"@,
            "ContainerIdentifier"@,
        ]);
        assert(keys_view(kuu@) =~= seq!["APFSContainerUUID"@, "ContainerUUID"@]);
        assert(keys_view(kc@) =~= seq!["CapacityCeiling"@, "Capacity"@]);
        assert(keys_view(kf@) =~= seq!["CapacityFree"@]);
        assert(keys_view(kused@) =~= seq!["CapacityInUse"@, "CapacityUsed"@]);
        assert(keys_view(kv@) =~= seq!["Volumes"@, "APFSVolumes"@]);
    }
    let id: String = match plist_string(c, kr.as_slice()) {
        Some(s) => s,
        None => needle.to_owned(),
    };
    let uuid: JsonValue = match plist_string(c, kuu.as_slice()) {
        Some(s) => JsonValue::Str(s),
        None => JsonValue::Null,
    };
    let capacity = opt_uint_value(plist_u64(c, kc.as_slice()));
    let free = opt_uint_value(plist_u64(c, kf.as_slice()));
    let used = opt_uint_value(plist_u64(c, kused.as_slice()));

    let mut volumes: Vec<JsonValue> = Vec::new();
    match first_array_of(c, kv.as_slice()) {
        Some(entries) => {
            let ghost ev = crate::json::jv_seq(entries@);
            proof {
                crate::json::lemma_jv_seq(entries@);
            }
            let vn = entries.len();
            let mut i: usize = 0;
            #[verifier::loop_isolation(false)]
            while i < vn
                invariant
                    i <= vn,
                    vn == entries@.len(),
                    crate::json::jv_seq(volumes@) =~= volume_shapes(
                        ev.subrange(0, i as int),
                    ),
                decreases vn - i,
            {
                proof {
                    crate::json::lemma_jv_seq(volumes@);
                }
                volumes.push(build_volume(&entries[i]));
                proof {
                    crate::json::lemma_jv_seq(volumes@);
                    let pre1 = ev.subrange(0, i + 1);
                    assert(pre1.drop_last() =~= ev.subrange(0, i as int));
                    assert(pre1.last() == ev[i as int]);
                    assert(crate::json::jv_seq(volumes@) =~= volume_shapes(pre1));
                }
                i = i + 1;
            }
            proof {
                assert(ev.subrange(0, vn as int) =~= ev);
            }
        },
        None => {
            proof {
                assert(volumes_of(c@) =~= Seq::<JsonV>::empty());
                assert(crate::json::jv_seq(volumes@) =~= volume_shapes(volumes_of(c@)));
            }
        },
    }

    let r = JsonValue::Obj(vec![
        (String::from_str("containerIdentifier"), JsonValue::Str(id)),
        (String::from_str("containerUuid"), uuid),
        (String::from_str("capacity"), capacity),
        (String::from_str("capacityFree"), free),
        (String::from_str("capacityUsed"), used),
        (String::from_str("volumes"), JsonValue::Arr(volumes)),
    ]);
    proof {
        crate::json::lemma_jv_fields(r->Obj_0@);
        assert(r@->Obj_0 =~= container_shape(c@, needle@)->Obj_0);
    }
    r
}

/// Turn an optional count into a JSON field value.
fn opt_uint_value(v: Option<u64>) -> (r: JsonValue)
    ensures
        r@ == opt_uint(v),
{
    match v {
        Some(u) => JsonValue::UInt(u),
        None => JsonValue::Null,
    }
}

} // verus!
