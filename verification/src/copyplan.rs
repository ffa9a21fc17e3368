//! The chunk schedule of a block copy: 4 MiB chunks, walked
//! back-to-front when the destination lies above the source on the same
//! disk, so that no chunk is overwritten before it has been read.

use vstd::prelude::*;

use crate::events::{percent_of, percent_spec};

verus! {

/// The chunk size of every block copy.
pub const CHUNK: u64 = 0x400000;

/// The byte step between two progress emissions.
pub const PROGRESS_STEP: u64 = 0x3200000;

/// One scheduled chunk: absolute read and write positions, its length,
/// the cumulative byte count once it is done, and whether a progress
/// record (and journal update) is due after it.
pub struct Chunk {
    pub read_pos: u64,
    pub write_pos: u64,
    pub len: u64,
    pub copied_after: u64,
    pub emit: bool,
    pub percent: u64,
}

/// The number of chunks that cover `size` bytes.
pub open spec fn chunk_count(size: u64) -> int {
    if size == 0 {
        0
    } else {
        (size - 1) / (CHUNK as int) + 1
    }
}

/// The in-partition offset of chunk `k`, front-to-back order.
pub open spec fn fwd_pos(size: u64, k: int) -> int {
    k * (CHUNK as int)
}

/// The length of chunk `k`, front-to-back order.
pub open spec fn fwd_len(size: u64, k: int) -> int {
    if size - fwd_pos(size, k) < CHUNK as int {
        size - fwd_pos(size, k)
    } else {
        CHUNK as int
    }
}

/// The length of chunk `k`, back-to-front order: the highest offsets
/// leave first, and the short tail chunk lies lowest.
pub open spec fn bwd_len(size: u64, k: int) -> int {
    if size - k * (CHUNK as int) < CHUNK as int {
        size - k * (CHUNK as int)
    } else {
        CHUNK as int
    }
}

/// The in-partition offset of chunk `k`, back-to-front order.
pub open spec fn bwd_pos(size: u64, k: int) -> int {
    size - k * (CHUNK as int) - bwd_len(size, k)
}

/// The in-partition offset and length of chunk `k` of a copy.
pub open spec fn chunk_pos(size: u64, k: int, backward: bool) -> int {
    if backward {
        bwd_pos(size, k)
    } else {
        fwd_pos(size, k)
    }
}

/// The length of chunk `k` of a copy.
pub open spec fn chunk_len(size: u64, k: int, backward: bool) -> int {
    if backward {
        bwd_len(size, k)
    } else {
        fwd_len(size, k)
    }
}

/// The cumulative byte count after chunk `k`.
pub open spec fn copied_after(size: u64, k: int) -> int {
    if (k + 1) * (CHUNK as int) > size {
        size as int
    } else {
        (k + 1) * (CHUNK as int)
    }
}

/// A progress record is due after chunk `k`: the cumulative count has
/// crossed a 50 MiB step, or the chunk is the last.
pub open spec fn emit_after(size: u64, k: int) -> bool {
    ||| copied_after(size, k) / (PROGRESS_STEP as int) > (copied_after(size, k) - chunk_len(
        size,
        k,
        false,
    )) / (PROGRESS_STEP as int)
    ||| k == chunk_count(size) - 1
}

/// One chunk of the schedule is exactly as the direction rule places it.
pub open spec fn chunk_ok(
    c: Chunk,
    src_offset: u64,
    dst_offset: u64,
    size: u64,
    k: int,
    backward: bool,
) -> bool {
    &&& c.read_pos == src_offset + chunk_pos(size, k, backward)
    &&& c.write_pos == dst_offset + chunk_pos(size, k, backward)
    &&& c.len == chunk_len(size, k, backward)
    &&& c.copied_after == copied_after(size, k)
    &&& c.emit == emit_after(size, k)
    &&& c.percent == percent_spec(c.copied_after, size)
}

/// The whole schedule is correct for the given copy.
pub open spec fn chunks_ok(r: Seq<Chunk>, src_offset: u64, dst_offset: u64, size: u64) -> bool {
    &&& r.len() == chunk_count(size)
    &&& forall|k: int|
        0 <= k < r.len() ==> chunk_ok(r[k], src_offset, dst_offset, size, k, dst_offset
            > src_offset)
}

/// Schedule the chunks of a block copy between two byte offsets of the
/// same length `size`.  When `dst_offset > src_offset` the schedule
/// walks back-to-front; otherwise front-to-back.
pub fn copy_chunks(src_offset: u64, dst_offset: u64, size: u64) -> (r: Vec<Chunk>)
    requires
        src_offset + size <= u64::MAX,
        dst_offset + size <= u64::MAX,
    ensures
        chunks_ok(r@, src_offset, dst_offset, size),
{
    let mut r: Vec<Chunk> = Vec::new();
    if size == 0 {
        return r;
    }
    let backward = dst_offset > src_offset;
    let total: u64 = (size - 1) / CHUNK + 1;
    proof {
        assert(total == chunk_count(size));
        assert((size - 1) / (CHUNK as int) * (CHUNK as int) <= size - 1) by {
            vstd::arithmetic::div_mod::lemma_fundamental_div_mod(size - 1, CHUNK as int);
            assert((size - 1) / (CHUNK as int) * (CHUNK as int) == (CHUNK as int) * ((size - 1)
                / (CHUNK as int))) by (nonlinear_arith);
        }
    }
    let mut k: u64 = 0;
    while k < total
        invariant
            k <= total,
            total == chunk_count(size),
            size >= 1,
            src_offset + size <= u64::MAX,
            dst_offset + size <= u64::MAX,
            backward == (dst_offset > src_offset),
            total * (CHUNK as int) >= size,
            (total - 1) * (CHUNK as int) <= size - 1,
            r@.len() == k,
            forall|j: int|
                0 <= j < k ==> chunk_ok(r@[j], src_offset, dst_offset, size, j, backward),
        decreases total - k,
    {
        proof {
            assert(k * (CHUNK as int) <= (total - 1) * (CHUNK as int)) by (nonlinear_arith)
                requires
                    k <= total - 1,
            ;
        }
        let done: u64 = k * CHUNK;
        let len: u64 = if size - done < CHUNK {
            size - done
        } else {
            CHUNK
        };
        let pos: u64 = if backward {
            size - done - len
        } else {
            done
        };
        let after: u64 = if done + len > size {
            size
        } else {
            done + len
        };
        proof {
            assert(after == copied_after(size, k as int));
            assert((k + 1) * (CHUNK as int) == k * (CHUNK as int) + CHUNK) by (nonlinear_arith);
        }
        let prev: u64 = after - len;
        let emit = (after / PROGRESS_STEP > prev / PROGRESS_STEP) || k == total - 1;
        let pct = percent_of(after, size);
        let c = Chunk {
            read_pos: src_offset + pos,
            write_pos: dst_offset + pos,
            len,
            copied_after: after,
            emit,
            percent: pct,
        };
        proof {
            assert(chunk_len(size, k as int, backward) == len);
            assert(chunk_pos(size, k as int, backward) == pos);
            assert(chunk_ok(c, src_offset, dst_offset, size, k as int, backward));
        }
        r.push(c);
        k = k + 1;
    }
    r
}

/// The direction rule is safe: in a back-to-front schedule, the bytes a
/// chunk writes all lie at or above the destination offset, and every
/// chunk still to be read lies wholly below the write position of the
/// chunks already done.  No byte is overwritten before it was read.
pub proof fn lemma_backward_no_clobber(
    r: Seq<Chunk>,
    src_offset: u64,
    dst_offset: u64,
    size: u64,
)
    requires
        dst_offset > src_offset,
        chunks_ok(r, src_offset, dst_offset, size),
    ensures
        forall|k: int, j: int|
            0 <= k < j < r.len() ==> r[j].read_pos + r[j].len <= r[k].write_pos,
{
    assert forall|k: int, j: int| 0 <= k < j < r.len() implies r[j].read_pos + r[j].len
        <= r[k].write_pos by {
        assert(chunk_ok(r[k], src_offset, dst_offset, size, k, true));
        assert(chunk_ok(r[j], src_offset, dst_offset, size, j, true));
        // the later chunk lies wholly below the earlier one
        assert(j * (CHUNK as int) >= (k + 1) * (CHUNK as int)) by (nonlinear_arith)
            requires
                j >= k + 1,
        ;
        assert(bwd_pos(size, j) + bwd_len(size, j) <= bwd_pos(size, k));
    }
}

/// In a front-to-back schedule the chunks cover the region in ascending
/// order of offsets.
pub proof fn lemma_forward_order(r: Seq<Chunk>, src_offset: u64, dst_offset: u64, size: u64)
    requires
        dst_offset <= src_offset,
        chunks_ok(r, src_offset, dst_offset, size),
    ensures
        forall|k: int, j: int|
            0 <= k < j < r.len() ==> r[k].read_pos + r[k].len <= r[j].read_pos,
{
    assert forall|k: int, j: int| 0 <= k < j < r.len() implies r[k].read_pos + r[k].len
        <= r[j].read_pos by {
        assert(chunk_ok(r[k], src_offset, dst_offset, size, k, false));
        assert(chunk_ok(r[j], src_offset, dst_offset, size, j, false));
        assert((k + 1) * (CHUNK as int) <= j * (CHUNK as int)) by (nonlinear_arith)
            requires
                k + 1 <= j,
        ;
        assert(fwd_len(size, k) <= CHUNK as int);
    }
}

/// The cumulative byte counter is monotone along the schedule, so the
/// progress stream for one phase never goes backwards.
pub proof fn lemma_progress_monotone(r: Seq<Chunk>, src_offset: u64, dst_offset: u64, size: u64)
    requires
        chunks_ok(r, src_offset, dst_offset, size),
    ensures
        forall|k: int, j: int|
            0 <= k <= j < r.len() ==> r[k].copied_after <= r[j].copied_after,
{
    let backward = dst_offset > src_offset;
    assert forall|k: int, j: int| 0 <= k <= j < r.len() implies r[k].copied_after
        <= r[j].copied_after by {
        assert(chunk_ok(r[k], src_offset, dst_offset, size, k, backward));
        assert(chunk_ok(r[j], src_offset, dst_offset, size, j, backward));
        assert((k + 1) * (CHUNK as int) <= (j + 1) * (CHUNK as int)) by (nonlinear_arith)
            requires
                k <= j,
        ;
    }
}

} // verus!
