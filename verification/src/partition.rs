use vstd::prelude::*;

use vstd::arithmetic::div_mod::{
    lemma_div_is_ordered, lemma_div_multiples_vanish, lemma_div_nonincreasing,
    lemma_fundamental_div_mod, lemma_mod_division_less_than_divisor,
};

use crate::error::FbError;
use crate::header::Header;

verus! {

/// One worker's share of the framebuffer: a contiguous run of cells
/// starting at linear offset `offset`, together with the grid
/// coordinate of its first cell.
///
/// The starting row is derived by dividing the linear offset by the
/// grid *height*, while rows wrap by *width* during iteration; the
/// derived row therefore matches the true row only on square grids.
/// This library keeps that derivation as the grid's documented
/// behavior rather than silently switching the divisor to the width.
#[derive(Clone, Copy, Debug, PartialEq, Eq, Structural)]
pub struct ChunkSpec {
    pub offset: usize,
    pub len: usize,
    pub start_x: u16,
    pub start_y: u16,
}

/// Cells per chunk: an even share rounded down, plus one.
pub open spec fn spec_chunk_size(total: int, workers: int) -> int {
    total / workers + 1
}

/// Linear offset of chunk `i`: consecutive chunks of `size` cells,
/// capped at the total so that trailing chunks may be empty.
pub open spec fn spec_chunk_offset(total: int, size: int, i: int) -> int {
    if i * size <= total {
        i * size
    } else {
        total
    }
}

/// Length of chunk `i`: the full `size` when it fits, the remainder
/// otherwise (zero for trailing chunks past the end).
pub open spec fn spec_chunk_len(total: int, size: int, i: int) -> int {
    if spec_chunk_offset(total, size, i) + size <= total {
        size
    } else {
        total - spec_chunk_offset(total, size, i)
    }
}

/// The chunk list `cs` is exactly the partition of `h`'s cell array
/// among `workers` loops: one entry per worker, offsets and lengths by
/// the closed forms above, and each start coordinate derived from the
/// chunk's offset (column by width, row by height).
pub open spec fn is_partition(cs: Seq<ChunkSpec>, h: Header, workers: int) -> bool {
    let total = h.spec_cell_count();
    let size = spec_chunk_size(total, workers);
    &&& cs.len() == workers
    &&& forall|i: int|
        0 <= i < cs.len() ==> {
            &&& (#[trigger] cs[i]).offset == spec_chunk_offset(total, size, i)
            &&& cs[i].len == spec_chunk_len(total, size, i)
            &&& cs[i].start_x == (cs[i].offset as int) % (h.width as int)
            &&& cs[i].start_y == (cs[i].offset as int) / (h.height as int)
            &&& cs[i].start_x < h.width
            &&& cs[i].start_y <= h.width
        }
}

/// Consecutive chunks touch exactly: the next chunk begins where the
/// previous one ends.
pub proof fn lemma_chunk_adjacent(total: int, size: int, i: int)
    requires
        total >= 0,
        size >= 1,
        i >= 0,
    ensures
        spec_chunk_offset(total, size, i + 1) == spec_chunk_offset(total, size, i)
            + spec_chunk_len(total, size, i),
{
    assert((i + 1) * size == i * size + size) by (nonlinear_arith);
    if i * size > total {
        assert(i * size + size > total);
    }
}

/// `workers` chunks of `spec_chunk_size` cells reach past the end of
/// the cell array, so the capped offsets cover it completely.
pub proof fn lemma_chunks_reach_total(total: int, workers: int)
    requires
        total >= 0,
        workers >= 1,
    ensures
        workers * spec_chunk_size(total, workers) > total,
        spec_chunk_offset(total, spec_chunk_size(total, workers), workers) == total,
{
    lemma_fundamental_div_mod(total, workers);
    lemma_mod_division_less_than_divisor(total, workers);
    let q = total / workers;
    assert(workers * (q + 1) == workers * q + workers) by (nonlinear_arith);
}

/// Sum of the chunk lengths, first to last.
pub open spec fn spec_len_sum(cs: Seq<ChunkSpec>) -> int
    decreases cs.len(),
{
    if cs.len() == 0 {
        0
    } else {
        spec_len_sum(cs.drop_last()) + cs.last().len
    }
}

proof fn lemma_len_sum_prefix(cs: Seq<ChunkSpec>, h: Header, workers: int, k: int)
    requires
        h.valid(),
        workers >= 1,
        is_partition(cs, h, workers),
        0 <= k <= workers,
    ensures
        spec_len_sum(cs.take(k)) == spec_chunk_offset(
            h.spec_cell_count(),
            spec_chunk_size(h.spec_cell_count(), workers),
            k,
        ),
    decreases k,
{
    let total = h.spec_cell_count();
    let size = spec_chunk_size(total, workers);
    lemma_cell_count_bounds(h);
    lemma_div_nonincreasing(total, workers);
    if k == 0 {
        assert(spec_len_sum(cs.take(0)) == 0);
        assert(spec_chunk_offset(total, size, 0) == 0);
    } else {
        lemma_len_sum_prefix(cs, h, workers, k - 1);
        assert(cs.take(k).drop_last() =~= cs.take(k - 1));
        assert(cs.take(k).last() == cs[k - 1]);
        lemma_chunk_adjacent(total, size, k - 1);
    }
}

/// The cell count is non-negative and the chunk size is at least one.
proof fn lemma_cell_count_bounds(h: Header)
    requires
        h.valid(),
    ensures
        h.spec_cell_count() >= 1,
        h.spec_cell_count() <= 0xFFFF * 0xFFFF,
{
    assert(1 <= h.width * h.height <= 0xFFFF * 0xFFFF) by (nonlinear_arith)
        requires
            1 <= h.width <= 0xFFFF,
            1 <= h.height <= 0xFFFF,
    ;
}

/// A partition covers the cell array exactly: the first chunk starts
/// at offset zero, every later chunk begins where its predecessor
/// ends (no gap, no overlap), the last chunk ends at the total cell
/// count, the lengths sum to that count, and offsets never decrease.
pub proof fn lemma_partition_exact_cover(cs: Seq<ChunkSpec>, h: Header, workers: int)
    requires
        h.valid(),
        workers >= 1,
        is_partition(cs, h, workers),
    ensures
        cs.len() == workers,
        cs[0].offset == 0,
        forall|i: int|
            0 <= i < workers - 1 ==> cs[i + 1].offset == cs[i].offset + (#[trigger] cs[i]).len,
        cs[workers - 1].offset + cs[workers - 1].len == h.spec_cell_count(),
        spec_len_sum(cs) == h.spec_cell_count(),
        forall|i: int, j: int|
            #![trigger cs[i], cs[j]]
            0 <= i <= j < workers ==> cs[i].offset <= cs[j].offset,
{
    let total = h.spec_cell_count();
    let size = spec_chunk_size(total, workers);
    lemma_cell_count_bounds(h);
    lemma_div_nonincreasing(total, workers);
    assert(cs[0].offset == 0) by {
        assert(spec_chunk_offset(total, size, 0) == 0);
    }
    assert forall|i: int| 0 <= i < workers - 1 implies cs[i + 1].offset == cs[i].offset + (
    #[trigger] cs[i]).len by {
        lemma_chunk_adjacent(total, size, i);
    }
    assert(cs[workers - 1].offset + cs[workers - 1].len == total) by {
        lemma_chunk_adjacent(total, size, workers - 1);
        lemma_chunks_reach_total(total, workers);
    }
    assert(spec_len_sum(cs) == total) by {
        lemma_len_sum_prefix(cs, h, workers, workers);
        assert(cs.take(workers as int) =~= cs);
        lemma_chunks_reach_total(total, workers);
    }
    assert forall|i: int, j: int|
        #![trigger cs[i], cs[j]]
        0 <= i <= j < workers implies cs[i].offset <= cs[j].offset by {
        assert(i * size <= j * size) by (nonlinear_arith)
            requires
                0 <= i <= j,
                size >= 0,
        ;
    }
}

/// Splits the cell array into one contiguous chunk per worker.
///
/// Fails with `NoWorkers` when the worker count is zero; otherwise
/// returns exactly `workers` chunks (trailing ones possibly empty)
/// that cover the `width * height` cells in order with no gaps and no
/// overlaps, each carrying the start coordinate derived from its
/// linear offset.
pub fn partition(header: &Header, workers: usize) -> (r: Result<Vec<ChunkSpec>, FbError>)
    requires
        header.valid(),
    ensures
        workers == 0 ==> r == Err::<Vec<ChunkSpec>, FbError>(FbError::NoWorkers),
        workers > 0 ==> (r matches Ok(cs) && is_partition(cs@, *header, workers as int)),
{
    if workers == 0 {
        return Err(FbError::NoWorkers);
    }
    let total = header.cell_count();
    proof {
        lemma_cell_count_bounds(*header);
        lemma_div_nonincreasing(total as int, workers as int);
    }
    let size = total / workers + 1;
    let ghost gtotal: int = total as int;
    let ghost gsize: int = size as int;
    let mut cs: Vec<ChunkSpec> = Vec::new();
    let mut offset: usize = 0;
    let mut i: usize = 0;
    while i < workers
        invariant
            0 <= i <= workers,
            gtotal == header.spec_cell_count(),
            gsize == spec_chunk_size(gtotal, workers as int),
            size as int == gsize,
            header.valid(),
            1 <= gsize,
            gtotal <= 0xFFFF * 0xFFFF,
            offset == spec_chunk_offset(gtotal, gsize, i as int),
            offset <= total,
            total == gtotal,
            cs@.len() == i,
            forall|j: int|
                0 <= j < i ==> {
                    &&& (#[trigger] cs@[j]).offset == spec_chunk_offset(gtotal, gsize, j)
                    &&& cs@[j].len == spec_chunk_len(gtotal, gsize, j)
                    &&& cs@[j].start_x == (cs@[j].offset as int) % (header.width as int)
                    &&& cs@[j].start_y == (cs@[j].offset as int) / (header.height as int)
                    &&& cs@[j].start_x < header.width
                    &&& cs@[j].start_y <= header.width
                },
        decreases workers - i,
    {
        proof {
            lemma_mod_division_less_than_divisor(offset as int, header.width as int);
            lemma_div_is_ordered(offset as int, gtotal, header.height as int);
            assert(gtotal == (header.height as int) * (header.width as int)) by (nonlinear_arith)
                requires
                    gtotal == (header.width as int) * (header.height as int),
            ;
            lemma_div_multiples_vanish(header.width as int, header.height as int);
            assert((offset as int) / (header.height as int) <= header.width);
            lemma_chunk_adjacent(gtotal, gsize, i as int);
        }
        let len = if size <= total - offset {
            size
        } else {
            total - offset
        };
        let start_x = (offset % header.width as usize) as u16;
        let start_y = (offset / header.height as usize) as u16;
        assert(start_x == (offset as int) % (header.width as int));
        assert(start_y == (offset as int) / (header.height as int));
        assert(len == spec_chunk_len(gtotal, gsize, i as int));
        cs.push(ChunkSpec { offset, len, start_x, start_y });
        offset = offset + len;
        i = i + 1;
    }
    Ok(cs)
}

} // verus!
