//! What holds of every sequence of store operations, stated over the models
//! that the operations' contracts use.

use crate::store::{read_result, records_of, scan_result, valid_len_of};
use vstd::prelude::*;

verus! {

/// Rows held after appending each run of `batches`, in turn, to an empty
/// store (`RecordStore::batch_write` appends `values@`; `RecordStore::write`
/// appends a run of one).
pub open spec fn rows_after(batches: Seq<Seq<i32>>) -> Seq<i32>
    decreases batches.len(),
{
    if batches.len() == 0 {
        Seq::empty()
    } else {
        rows_after(batches.drop_last()) + batches.last()
    }
}

/// Row id that the `i`-th run of `batches` receives: the row count before it.
pub open spec fn first_row_id_of(batches: Seq<Seq<i32>>, i: int) -> int {
    rows_after(batches.subrange(0, i)).len() as int
}

/// Total number of values in `batches`.
pub open spec fn total_len(batches: Seq<Seq<i32>>) -> nat
    decreases batches.len(),
{
    if batches.len() == 0 {
        0
    } else {
        total_len(batches.drop_last()) + batches.last().len()
    }
}

proof fn lemma_rows_after_len(batches: Seq<Seq<i32>>)
    ensures
        rows_after(batches).len() == total_len(batches),
    decreases batches.len(),
{
    if batches.len() > 0 {
        lemma_rows_after_len(batches.drop_last());
    }
}

proof fn lemma_rows_after_prefix(batches: Seq<Seq<i32>>, i: int)
    requires
        0 <= i < batches.len(),
    ensures
        rows_after(batches.subrange(0, i + 1)) == rows_after(batches.subrange(0, i))
            + batches[i],
        rows_after(batches.subrange(0, i + 1)).len() <= rows_after(batches).len(),
        forall|k: int|
            0 <= k < rows_after(batches.subrange(0, i + 1)).len() ==> #[trigger] rows_after(
                batches,
            )[k] == rows_after(batches.subrange(0, i + 1))[k],
    decreases batches.len(),
{
    let pre = batches.subrange(0, i + 1);
    assert(pre.drop_last() =~= batches.subrange(0, i));
    if i + 1 < batches.len() {
        let shorter = batches.drop_last();
        assert(shorter.subrange(0, i + 1) =~= pre);
        assert(shorter.subrange(0, i) =~= batches.subrange(0, i));
        lemma_rows_after_prefix(shorter, i);
    } else {
        assert(pre =~= batches);
    }
}

/// Row ids come out gap-free and increasing: the first run starts at row 0,
/// each run starts where the one before it ended, a later run never starts
/// before an earlier one ends, and the rows held count every appended value.
pub proof fn lemma_row_ids_gap_free(batches: Seq<Seq<i32>>)
    ensures
        first_row_id_of(batches, 0) == 0,
        forall|i: int|
            0 <= i < batches.len() ==> #[trigger] first_row_id_of(batches, i + 1)
                == first_row_id_of(batches, i) + batches[i].len(),
        forall|i: int, j: int|
            0 <= i < j <= batches.len() ==> #[trigger] first_row_id_of(batches, i)
                + batches[i].len() <= #[trigger] first_row_id_of(batches, j),
        first_row_id_of(batches, batches.len() as int) == rows_after(batches).len(),
        rows_after(batches).len() == total_len(batches),
{
    assert(batches.subrange(0, 0) =~= Seq::<Seq<i32>>::empty());
    assert(batches.subrange(0, batches.len() as int) =~= batches);
    lemma_rows_after_len(batches);
    assert forall|i: int| 0 <= i < batches.len() implies #[trigger] first_row_id_of(
        batches,
        i + 1,
    ) == first_row_id_of(batches, i) + batches[i].len() by {
        lemma_rows_after_prefix(batches, i);
    }
    assert forall|i: int, j: int|
        0 <= i < j <= batches.len() implies #[trigger] first_row_id_of(batches, i)
        + batches[i].len() <= #[trigger] first_row_id_of(batches, j) by {
        lemma_first_row_id_monotonic(batches, i + 1, j);
        lemma_rows_after_prefix(batches, i);
    }
}

proof fn lemma_first_row_id_monotonic(batches: Seq<Seq<i32>>, i: int, j: int)
    requires
        0 <= i <= j <= batches.len(),
    ensures
        first_row_id_of(batches, i) <= first_row_id_of(batches, j),
    decreases j - i,
{
    if i < j {
        lemma_first_row_id_monotonic(batches, i, j - 1);
        lemma_rows_after_prefix(batches, j - 1);
    }
}

/// Every value of every run reads back at the row id its run was given plus
/// its position in the run, once all runs are appended.
pub proof fn lemma_history_reads_back(batches: Seq<Seq<i32>>, i: int, k: int)
    requires
        0 <= i < batches.len(),
        0 <= k < batches[i].len(),
    ensures
        read_result(rows_after(batches), first_row_id_of(batches, i) + k) == Some(
            batches[i][k],
        ),
{
    lemma_rows_after_prefix(batches, i);
    let pre = rows_after(batches.subrange(0, i));
    assert((pre + batches[i])[pre.len() + k] == batches[i][k]);
}

/// A written value reads back at the row id that the write returned (the row
/// count before it).
pub proof fn lemma_write_read_round_trip(before: Seq<i32>, v: i32)
    ensures
        read_result(before.push(v), before.len() as int) == Some(v),
{
}

/// A run appended at row id `before.len()` reads back value by value at the
/// contiguous row ids that follow.
pub proof fn lemma_batch_contiguity(before: Seq<i32>, values: Seq<i32>, i: int)
    requires
        0 <= i < values.len(),
    ensures
        read_result(before + values, before.len() + i) == Some(values[i]),
{
}

/// Reading at the row count, or past it, finds nothing; the last row is
/// found whenever there is one.
pub proof fn lemma_not_found_boundary(rows: Seq<i32>, row_id: int)
    ensures
        read_result(rows, rows.len() as int) == None::<i32>,
        row_id >= rows.len() ==> read_result(rows, row_id) == None::<i32>,
        rows.len() > 0 ==> read_result(rows, rows.len() - 1) is Some,
{
}

/// A scan returns `min(count, row_count - start)` values when `start` is
/// below the row count and none otherwise, never more than `count`.
pub proof fn lemma_scan_clamping(rows: Seq<i32>, start: nat, count: nat)
    ensures
        scan_result(rows, start as int, count as int).len() == (if start < rows.len() {
            if count < rows.len() - start {
                count as int
            } else {
                rows.len() - start
            }
        } else {
            0
        }),
        scan_result(rows, start as int, count as int).len() <= count,
{
}

/// An image of `4 * k + p` bytes with `0 < p < 4` recovers to `k` rows and a
/// length of `4 * k` bytes.
pub proof fn lemma_recovery_truncation(image: Seq<u8>, k: nat, p: nat)
    requires
        image.len() == 4 * k + p,
        0 < p < 4,
    ensures
        valid_len_of(image.len() as int) == 4 * k,
        records_of(image).len() == k,
        image.subrange(0, valid_len_of(image.len() as int)).len() == 4 * k,
{
    assert((4 * k + p) % 4 == p as int);
    assert((4 * k + p) / 4 == k as int);
}

/// Each value as a run of its own, as a sequence of single writes appends them.
pub open spec fn singleton_runs(values: Seq<i32>) -> Seq<Seq<i32>> {
    values.map_values(|v: i32| seq![v])
}

/// `n` writes, applied one after another, each receive a distinct row id
/// below `n` (the `i`-th gets `i`), leave `n` rows, and every value reads
/// back at its row id.
pub proof fn lemma_serial_writes(values: Seq<i32>)
    ensures
        forall|i: int|
            0 <= i < values.len() ==> #[trigger] first_row_id_of(singleton_runs(values), i)
                == i,
        rows_after(singleton_runs(values)) == values,
        forall|i: int|
            0 <= i < values.len() ==> #[trigger] read_result(values, i) == Some(values[i]),
{
    let runs = singleton_runs(values);
    lemma_rows_after_singletons(values);
    assert forall|i: int| 0 <= i < values.len() implies #[trigger] first_row_id_of(runs, i)
        == i by {
        let pre = values.subrange(0, i);
        assert(runs.subrange(0, i) =~= singleton_runs(pre));
        lemma_rows_after_singletons(pre);
    }
}

proof fn lemma_rows_after_singletons(values: Seq<i32>)
    ensures
        rows_after(singleton_runs(values)) == values,
    decreases values.len(),
{
    let runs = singleton_runs(values);
    if values.len() == 0 {
        assert(rows_after(runs) =~= values);
    } else {
        let init = values.drop_last();
        assert(runs.drop_last() =~= singleton_runs(init));
        lemma_rows_after_singletons(init);
        assert(rows_after(runs) =~= values);
    }
}

} // verus!
