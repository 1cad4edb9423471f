//! Batched multi-row inserts. One statement can bind only `PG_LIMIT`
//! parameters, so a multi-row insert binds at most
//! `PG_LIMIT / column_count` rows per statement and a larger slice is split
//! into consecutive chunks — every row lands in exactly one statement, none
//! is dropped.

use vstd::prelude::*;

verus! {

/// The database's fixed ceiling on bound parameters in one statement.
pub const PG_LIMIT: u16 = 65535;

/// How many rows, each binding `columns` parameters, fit one statement.
pub fn rows_per_statement(columns: usize) -> (r: usize)
    requires
        1 <= columns,
    ensures
        r == PG_LIMIT as int / columns as int,
{
    (PG_LIMIT as usize) / columns
}

/// The row ranges `[start, end)` of the statements of one batched insert
/// over `len` rows, at most `cap` rows per statement: ranges are nonempty,
/// maximal, consecutive, in order, and together cover every row.
pub fn chunk_ranges(len: usize, cap: usize) -> (r: Vec<(usize, usize)>)
    requires
        1 <= cap,
    ensures
        forall|k: int| 0 <= k < r@.len() ==> (#[trigger] r@[k]).0 < r@[k].1 <= len,
        forall|k: int|
            0 <= k < r@.len() ==> (#[trigger] r@[k]).1 == if r@[k].0 + cap <= len {
                (r@[k].0 + cap) as usize
            } else {
                len
            },
        forall|k: int| 0 < k < r@.len() ==> (#[trigger] r@[k]).0 == r@[k - 1].1,
        r@.len() > 0 <==> len > 0,
        r@.len() > 0 ==> r@[0].0 == 0 && r@[r@.len() - 1].1 == len,
{
    let mut out: Vec<(usize, usize)> = Vec::new();
    let mut start: usize = 0;
    while start < len
        invariant
            1 <= cap,
            start <= len,
            out@.len() == 0 ==> start == 0,
            out@.len() > 0 ==> out@[0].0 == 0 && out@[out@.len() - 1].1 == start && start > 0,
            forall|k: int| 0 <= k < out@.len() ==> (#[trigger] out@[k]).0 < out@[k].1 <= len,
            forall|k: int|
                0 <= k < out@.len() ==> (#[trigger] out@[k]).1 == if out@[k].0 + cap <= len {
                    (out@[k].0 + cap) as usize
                } else {
                    len
                },
            forall|k: int| 0 < k < out@.len() ==> (#[trigger] out@[k]).0 == out@[k - 1].1,
        decreases len - start,
    {
        let end = if len - start > cap {
            start + cap
        } else {
            len
        };
        out.push((start, end));
        start = end;
    }
    out
}

/// Row `row` lies inside some chunk among the first `k + 1` of the plan,
/// when it lies below that chunk's end.
proof fn lemma_chunks_cover_prefix(r: Seq<(usize, usize)>, len: usize, k: int, row: int)
    requires
        forall|j: int| 0 <= j < r.len() ==> (#[trigger] r[j]).0 < r[j].1 <= len,
        forall|j: int| 0 < j < r.len() ==> (#[trigger] r[j]).0 == r[j - 1].1,
        r.len() > 0 ==> r[0].0 == 0,
        0 <= k < r.len(),
        0 <= row < r[k].1,
    ensures
        exists|j: int| 0 <= j <= k && (#[trigger] r[j]).0 <= row < r[j].1,
    decreases k,
{
    if row >= r[k].0 {
        assert(r[k].0 <= row < r[k].1);
    } else {
        assert(k > 0);
        assert(row < r[k - 1].1);
        lemma_chunks_cover_prefix(r, len, k - 1, row);
    }
}

/// No row of a batched insert is dropped: every row index of the slice lies
/// inside some statement's range of the plan that `chunk_ranges` returns.
pub proof fn lemma_chunks_cover(r: Seq<(usize, usize)>, len: usize, row: int)
    requires
        forall|j: int| 0 <= j < r.len() ==> (#[trigger] r[j]).0 < r[j].1 <= len,
        forall|j: int| 0 < j < r.len() ==> (#[trigger] r[j]).0 == r[j - 1].1,
        r.len() > 0 <==> len > 0,
        r.len() > 0 ==> r[0].0 == 0 && r[r.len() - 1].1 == len,
        0 <= row < len,
    ensures
        exists|j: int| 0 <= j < r.len() && (#[trigger] r[j]).0 <= row < r[j].1,
{
    lemma_chunks_cover_prefix(r, len, r.len() - 1, row);
    let jw = choose|j: int| 0 <= j <= r.len() - 1 && (#[trigger] r[j]).0 <= row < r[j].1;
    assert(r[jw].0 <= row < r[jw].1);
}

} // verus!
