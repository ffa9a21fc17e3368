//! Filesystem-type fusion and the tables keyed by filesystem tag.
//!
//! A device's tag is fused from up to three candidate fields of its
//! metadata; the first candidate that matches any rule wins, and within
//! one candidate the rules apply in a fixed priority order.

use vstd::prelude::*;

use crate::strutil::{contains_str, contains_sub, lower_spec, lower_string, str_eq};

verus! {

/// The tag one candidate field yields, by the fixed priority order.
pub open spec fn tag_of_candidate(c: Seq<char>) -> Option<Seq<char>> {
    if contains_sub(c, "apfs"@) {
        Some("apfs"@)
    } else if contains_sub(c, "exfat"@) {
        Some("exfat"@)
    } else if contains_sub(c, "msdos"@) || contains_sub(c, "fat32"@) || contains_sub(c, "fat"@) {
        Some("fat32"@)
    } else if contains_sub(c, "ntfs"@) {
        Some("ntfs"@)
    } else if contains_sub(c, "ext4"@) || contains_sub(c, "linux"@) {
        Some("ext4"@)
    } else if contains_sub(c, "btrfs"@) {
        Some("btrfs"@)
    } else if contains_sub(c, "xfs"@) {
        Some("xfs"@)
    } else if contains_sub(c, "f2fs"@) {
        Some("f2fs"@)
    } else if contains_sub(c, "swap"@) {
        Some("swap"@)
    } else {
        None
    }
}

/// Fusion over already-folded candidates: the first that matches wins.
pub open spec fn fuse_tags(cands: Seq<Seq<char>>) -> Seq<char>
    decreases cands.len(),
{
    if cands.len() == 0 {
        "unknown"@
    } else {
        match tag_of_candidate(cands[0]) {
            Some(t) => t,
            None => fuse_tags(cands.skip(1)),
        }
    }
}

/// Fusion over the raw candidate fields, case-folded first.
pub open spec fn fuse_raw(cands: Seq<Seq<char>>) -> Seq<char> {
    fuse_tags(cands.map_values(|c: Seq<char>| lower_spec(c)))
}

/// The tag one candidate yields.
fn candidate_tag(c: &str) -> (r: Option<String>)
    ensures
        match r {
            Some(t) => tag_of_candidate(c@) == Some(t@),
            None => tag_of_candidate(c@) is None,
        },
{
    if contains_str(c, "apfs") {
        Some(String::from_str("apfs"))
    } else if contains_str(c, "exfat") {
        Some(String::from_str("exfat"))
    } else if contains_str(c, "msdos") || contains_str(c, "fat32") || contains_str(c, "fat") {
        Some(String::from_str("fat32"))
    } else if contains_str(c, "ntfs") {
        Some(String::from_str("ntfs"))
    } else if contains_str(c, "ext4") || contains_str(c, "linux") {
        Some(String::from_str("ext4"))
    } else if contains_str(c, "btrfs") {
        Some(String::from_str("btrfs"))
    } else if contains_str(c, "xfs") {
        Some(String::from_str("xfs"))
    } else if contains_str(c, "f2fs") {
        Some(String::from_str("f2fs"))
    } else if contains_str(c, "swap") {
        Some(String::from_str("swap"))
    } else {
        None
    }
}

/// Fuse the candidate metadata fields (filesystem type, personality,
/// content hint, in that order) into one filesystem tag; `unknown` when
/// nothing matches.
pub fn fuse_fs_type(candidates: &Vec<String>) -> (r: String)
    ensures
        r@ == fuse_raw(candidates.deep_view()),
{
    let ghost folded = candidates.deep_view().map_values(|c: Seq<char>| lower_spec(c));
    let n = candidates.len();
    proof {
        assert(folded.skip(0) =~= folded);
    }
    let mut i: usize = 0;
    while i < n
        invariant
            i <= n,
            n == candidates@.len(),
            folded == candidates.deep_view().map_values(|c: Seq<char>| lower_spec(c)),
            folded.len() == n,
            forall|k: int| 0 <= k < n ==> folded[k] == lower_spec(candidates@[k]@),
            fuse_tags(folded.skip(i as int)) == fuse_tags(folded),
        decreases n - i,
    {
        let low = lower_string(candidates[i].as_str());
        match candidate_tag(low.as_str()) {
            Some(t) => {
                proof {
                    assert(folded.skip(i as int)[0] == folded[i as int]);
                }
                return t;
            },
            None => {
                proof {
                    assert(folded.skip(i as int)[0] == folded[i as int]);
                    assert(folded.skip(i as int).skip(1) =~= folded.skip(i + 1));
                }
            },
        }
        i = i + 1;
    }
    proof {
        assert(folded.skip(n as int).len() == 0);
    }
    String::from_str("unknown")
}

/// The mkfs binary that serves a filesystem tag, for the Linux family.
pub open spec fn mkfs_binary_spec(fs: Seq<char>) -> Option<Seq<char>> {
    if fs == "ext4"@ {
        Some("mkfs.ext4"@)
    } else if fs == "ntfs"@ {
        Some("mkfs.ntfs"@)
    } else if fs == "btrfs"@ {
        Some("mkfs.btrfs"@)
    } else if fs == "xfs"@ {
        Some("mkfs.xfs"@)
    } else if fs == "f2fs"@ {
        Some("mkfs.f2fs"@)
    } else if fs == "swap"@ {
        Some("mkswap"@)
    } else {
        None
    }
}

/// The mkfs binary for a filesystem tag, absent outside the Linux family.
pub fn mkfs_binary_for(fs_type: &str) -> (r: Option<String>)
    ensures
        match r {
            Some(b) => mkfs_binary_spec(fs_type@) == Some(b@),
            None => mkfs_binary_spec(fs_type@) is None,
        },
{
    if str_eq(fs_type, "ext4") {
        Some(String::from_str("mkfs.ext4"))
    } else if str_eq(fs_type, "ntfs") {
        Some(String::from_str("mkfs.ntfs"))
    } else if str_eq(fs_type, "btrfs") {
        Some(String::from_str("mkfs.btrfs"))
    } else if str_eq(fs_type, "xfs") {
        Some(String::from_str("mkfs.xfs"))
    } else if str_eq(fs_type, "f2fs") {
        Some(String::from_str("mkfs.f2fs"))
    } else if str_eq(fs_type, "swap") {
        Some(String::from_str("mkswap"))
    } else {
        None
    }
}

/// The GPT type code rewritten after a Linux-family format: 8300 for
/// ext4, btrfs, xfs and f2fs; 0700 for ntfs; 8200 for swap; none for the
/// families the host tool already types correctly.
pub open spec fn typecode_spec(fs: Seq<char>) -> Option<Seq<char>> {
    if fs == "ext4"@ || fs == "btrfs"@ || fs == "xfs"@ || fs == "f2fs"@ {
        Some("8300"@)
    } else if fs == "ntfs"@ {
        Some("0700"@)
    } else if fs == "swap"@ {
        Some("8200"@)
    } else {
        None
    }
}

/// The GPT type code for a filesystem tag.
pub fn typecode_for(fs_type: &str) -> (r: Option<String>)
    ensures
        match r {
            Some(t) => typecode_spec(fs_type@) == Some(t@),
            None => typecode_spec(fs_type@) is None,
        },
{
    if str_eq(fs_type, "ext4") || str_eq(fs_type, "btrfs") || str_eq(fs_type, "xfs") || str_eq(
        fs_type,
        "f2fs",
    ) {
        Some(String::from_str("8300"))
    } else if str_eq(fs_type, "ntfs") {
        Some(String::from_str("0700"))
    } else if str_eq(fs_type, "swap") {
        Some(String::from_str("8200"))
    } else {
        None
    }
}

} // verus!
