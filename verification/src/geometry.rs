//! Partition geometry: the per-operation snapshot of a partition's
//! place on its disk, and the bounds computations over a disk's
//! partition list.

use vstd::prelude::*;

verus! {

/// The geometry of one partition, read fresh for each operation.
/// Offset and size are byte counts; `min_start` is the lowest legal
/// start of a move (the current offset), `max_end` the highest legal
/// end (the next partition's start, or the disk size).
pub struct PartitionInfo {
    pub device: String,
    pub disk: String,
    pub partition_offset: u64,
    pub partition_size: u64,
    pub block_size: u64,
    pub min_start: u64,
    pub max_end: u64,
}

/// The mathematical shape of a partition snapshot.
pub struct PartitionInfoV {
    pub device: Seq<char>,
    pub disk: Seq<char>,
    pub partition_offset: u64,
    pub partition_size: u64,
    pub block_size: u64,
    pub min_start: u64,
    pub max_end: u64,
}

impl View for PartitionInfo {
    type V = PartitionInfoV;

    open spec fn view(&self) -> PartitionInfoV {
        PartitionInfoV {
            device: self.device@,
            disk: self.disk@,
            partition_offset: self.partition_offset,
            partition_size: self.partition_size,
            block_size: self.block_size,
            min_start: self.min_start,
            max_end: self.max_end,
        }
    }
}

impl PartitionInfoV {
    /// A usable snapshot: the sector size is positive and no larger
    /// than the 1 MiB alignment grain, and offsets fit the disk.
    pub open spec fn wf(self) -> bool {
        &&& 1 <= self.block_size <= 0x100000
        &&& self.partition_offset + self.partition_size <= u64::MAX
    }
}

/// The smallest positive offset in a list, if any: the start of the
/// nearest following partition.
pub open spec fn min_positive(offsets: Seq<u64>) -> Option<u64>
    decreases offsets.len(),
{
    if offsets.len() == 0 {
        None
    } else {
        let rest = min_positive(offsets.drop_last());
        let last = offsets.last();
        if last > 0 && (rest is None || last < rest->0) {
            Some(last)
        } else {
            rest
        }
    }
}

/// The highest legal end on a disk: the smallest positive offset of
/// another partition, or the whole disk size when none follows.
pub fn disk_max_end(disk_size: u64, other_offsets: &Vec<u64>) -> (r: u64)
    ensures
        r == (match min_positive(other_offsets@) {
            Some(m) => m,
            None => disk_size,
        }),
{
    let mut best: Option<u64> = None;
    let n = other_offsets.len();
    let mut i: usize = 0;
    while i < n
        invariant
            i <= n,
            n == other_offsets@.len(),
            best == min_positive(other_offsets@.subrange(0, i as int)),
        decreases n - i,
    {
        let off = other_offsets[i];
        proof {
            assert(other_offsets@.subrange(0, i + 1).drop_last() =~= other_offsets@.subrange(
                0,
                i as int,
            ));
        }
        let take = off > 0 && (match best {
            Some(b) => off < b,
            None => true,
        });
        if take {
            best = Some(off);
        }
        i = i + 1;
    }
    proof {
        assert(other_offsets@.subrange(0, n as int) =~= other_offsets@);
    }
    match best {
        Some(m) => m,
        None => disk_size,
    }
}

/// One entry of a disk's partition list, for the bounds computation.
pub struct BoundsEntry {
    pub offset: u64,
    pub size: u64,
    pub current: bool,
}

/// The first entry marked current.
pub open spec fn find_current(s: Seq<BoundsEntry>) -> Option<BoundsEntry>
    decreases s.len(),
{
    if s.len() == 0 {
        None
    } else if s[0].current {
        Some(s[0])
    } else {
        find_current(s.skip(1))
    }
}

/// Among entries strictly below `cur`, the one with the greatest
/// offset; the first found wins a tie.
pub open spec fn prev_entry(s: Seq<BoundsEntry>, cur: u64) -> Option<BoundsEntry>
    decreases s.len(),
{
    if s.len() == 0 {
        None
    } else {
        let rest = prev_entry(s.drop_last(), cur);
        let last = s.last();
        if last.offset < cur && (rest is None || last.offset > rest->0.offset) {
            Some(last)
        } else {
            rest
        }
    }
}

/// Among entries strictly above `cur`, the smallest offset.
pub open spec fn next_start(s: Seq<BoundsEntry>, cur: u64) -> Option<u64>
    decreases s.len(),
{
    if s.len() == 0 {
        None
    } else {
        let rest = next_start(s.drop_last(), cur);
        let last = s.last();
        if last.offset > cur && (rest is None || last.offset < rest->0) {
            Some(last.offset)
        } else {
            rest
        }
    }
}

/// The legal start range of the current partition on its disk: the end
/// of the preceding partition (at least 1 MiB), and the highest start
/// that still leaves room below the following partition.
pub open spec fn bounds_spec(s: Seq<BoundsEntry>, size: u64) -> (u64, u64) {
    let cur = find_current(s);
    let prev_end: u64 = match cur {
        Some(c) => match prev_entry(s, c.offset) {
            Some(p) => if p.offset + p.size > 0x100000 {
                (p.offset + p.size) as u64
            } else {
                0x100000
            },
            None => 0x100000,
        },
        None => 0x100000,
    };
    let max_start: u64 = match cur {
        Some(c) => match next_start(s, c.offset) {
            Some(ns) => if ns > size {
                (ns - size) as u64
            } else {
                prev_end
            },
            None => prev_end,
        },
        None => prev_end,
    };
    (prev_end, max_start)
}

/// Compute the legal start range of the current partition.
pub fn partition_bounds_for_disk(entries: &Vec<BoundsEntry>, size: u64) -> (r: (u64, u64))
    requires
        forall|k: int|
            0 <= k < entries@.len() ==> entries@[k].offset + entries@[k].size <= u64::MAX,
    ensures
        r == bounds_spec(entries@, size),
{
    let n = entries.len();
    // the current partition
    proof {
        assert(entries@.skip(0) =~= entries@);
    }
    let mut cur: Option<u64> = None;
    let mut i: usize = 0;
    while i < n
        invariant
            i <= n,
            n == entries@.len(),
            cur is None ==> find_current(entries@) == find_current(entries@.skip(i as int)),
            match cur {
                Some(c) => find_current(entries@) matches Some(e) && e.offset == c,
                None => true,
            },
        decreases n - i,
    {
        if cur.is_none() {
            proof {
                assert(entries@.skip(i as int)[0] == entries@[i as int]);
                assert(entries@.skip(i as int).skip(1) =~= entries@.skip(i + 1));
            }
            if entries[i].current {
                cur = Some(entries[i].offset);
            }
        }
        i = i + 1;
    }
    proof {
        if cur is None {
            assert(entries@.skip(n as int).len() == 0);
        }
    }
    let cur_off: u64;
    match cur {
        Some(c) => {
            cur_off = c;
        },
        None => {
            proof {
                assert(bounds_spec(entries@, size) == (0x100000u64, 0x100000u64));
            }
            return (0x100000, 0x100000);
        },
    }

    // the nearest neighbours
    let mut prev: Option<(u64, u64)> = None;
    let mut next: Option<u64> = None;
    let mut j: usize = 0;
    #[verifier::loop_isolation(false)]
    while j < n
        invariant
            j <= n,
            n == entries@.len(),
            forall|k: int|
                0 <= k < entries@.len() ==> entries@[k].offset + entries@[k].size <= u64::MAX,
            prev is Some <==> prev_entry(entries@.subrange(0, j as int), cur_off) is Some,
            prev matches Some(p) ==> (prev_entry(entries@.subrange(0, j as int), cur_off)
                matches Some(e) && p.0 == e.offset && p.1 == e.size && p.0 + p.1 <= u64::MAX),
            next == next_start(entries@.subrange(0, j as int), cur_off),
        decreases n - j,
    {
        let e = &entries[j];
        proof {
            let s1 = entries@.subrange(0, j + 1);
            let s0 = entries@.subrange(0, j as int);
            assert(s1.drop_last() =~= s0);
            assert(s1.last() == entries@[j as int]);
            assert(s1.len() == j + 1);
            assert(s1.drop_last() == s0);
            let rest = prev_entry(s0, cur_off);
            if s1.last().offset < cur_off && (rest is None || s1.last().offset > rest->0.offset) {
                assert(prev_entry(s1, cur_off) == Some(s1.last()));
            } else {
                assert(prev_entry(s1, cur_off) == rest);
            }
            let restn = next_start(s0, cur_off);
            assert(next_start(s1, cur_off) == (if entries@[j as int].offset > cur_off && (restn
                is None || entries@[j as int].offset < restn->0) {
                Some(entries@[j as int].offset)
            } else {
                restn
            }));
        }
        if e.offset < cur_off {
            let better = match prev {
                Some(p) => e.offset > p.0,
                None => true,
            };
            if better {
                prev = Some((e.offset, e.size));
            }
        } else if e.offset > cur_off {
            let better = match next {
                Some(ns) => e.offset < ns,
                None => true,
            };
            if better {
                next = Some(e.offset);
            }
        }
        j = j + 1;
    }
    proof {
        assert(entries@.subrange(0, n as int) =~= entries@);
    }
    let prev_end: u64 = match prev {
        Some(p) => if p.0 + p.1 > 0x100000 {
            p.0 + p.1
        } else {
            0x100000
        },
        None => 0x100000,
    };
    let max_start: u64 = match next {
        Some(ns) => if ns > size {
            ns - size
        } else {
            prev_end
        },
        None => prev_end,
    };
    (prev_end, max_start)
}

} // verus!
