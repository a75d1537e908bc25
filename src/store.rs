//! The record store: recovery of a store image on open, the append protocol,
//! and point reads and range scans gated on the row count.

use crate::record::{
    decode_record, encode_record, lemma_record_round_trip, record_bytes, record_value,
    RECORD_SIZE,
};
use vstd::prelude::*;
use vstd::slice::slice_subrange;

verus! {

/// Whether the durability step (forcing written bytes to stable storage)
/// runs after each write or batch. Fixed when the store is opened.
#[derive(Debug, Clone, Copy, PartialEq, Eq, Structural)]
pub enum SyncMode {
    Fsync,
    NoSync,
}

impl SyncMode {
    /// The mode that a configured setting selects: `"nosync"` selects the
    /// relaxed mode; anything else, or no setting, the durable mode.
    pub fn from_setting(setting: Option<String>) -> (r: SyncMode)
        ensures
            r == (if setting is Some && setting->0@ == "nosync"@ {
                SyncMode::NoSync
            } else {
                SyncMode::Fsync
            }),
    {
        match setting {
            Some(s) => {
                let relaxed = "nosync".to_owned();
                if s == relaxed {
                    SyncMode::NoSync
                } else {
                    SyncMode::Fsync
                }
            },
            None => SyncMode::Fsync,
        }
    }

    /// Whether an append of `rows` records in this mode ends with the
    /// durability step: in the durable mode, unless nothing was written.
    pub fn syncs_after(&self, rows: u64) -> (r: bool)
        ensures
            r == (*self == SyncMode::Fsync && rows > 0),
    {
        self.syncs() && rows > 0
    }

    /// Whether an append in this mode ends with the durability step.
    pub fn syncs(&self) -> (r: bool)
        ensures
            r == (*self == SyncMode::Fsync),
    {
        match self {
            SyncMode::Fsync => true,
            SyncMode::NoSync => false,
        }
    }
}

/// Outcome of appending one record.
#[derive(Debug, Clone, Copy, PartialEq, Eq, Structural)]
pub struct WriteResult {
    /// Row id given to the new record.
    pub row_id: u64,
    /// Whether the durability step ran.
    pub synced: bool,
}

/// Outcome of appending a run of records.
#[derive(Debug, Clone, Copy, PartialEq, Eq, Structural)]
pub struct BatchWriteResult {
    pub rows_written: u64,
    /// Row id of the first record of the run; the rest follow contiguously.
    pub first_row_id: u64,
    /// Whether the durability step ran.
    pub synced: bool,
}

/// What opening a store image of a given length decides.
#[derive(Debug, Clone, Copy, PartialEq, Eq, Structural)]
pub struct Recovery {
    /// Length of the image once a torn trailing record is cut off.
    pub valid_len: u64,
    /// Number of whole records.
    pub row_count: u64,
    /// Whether the image must be truncated to `valid_len`.
    pub truncate: bool,
}

/// Length of an image of `len` bytes once a trailing partial record is cut off.
pub open spec fn valid_len_of(len: int) -> int {
    len - len % (RECORD_SIZE as int)
}

/// The records that an image holds, in row-id order.
pub open spec fn records_of(image: Seq<u8>) -> Seq<i32> {
    Seq::new(
        (image.len() / 4) as nat,
        |i: int| record_value(image.subrange(4 * i, 4 * i + 4)),
    )
}

/// The outcome of reading row `row_id` from a store holding `rows`.
pub open spec fn read_result(rows: Seq<i32>, row_id: int) -> Option<i32> {
    if 0 <= row_id < rows.len() {
        Some(rows[row_id])
    } else {
        None
    }
}

/// End (exclusive) of the rows that a scan of `count` rows from `start` covers.
pub open spec fn scan_end_of(start: int, count: int, total: int) -> int {
    if start + count < total {
        start + count
    } else {
        total
    }
}

/// The values that a scan of `count` rows from `start` returns.
pub open spec fn scan_result(rows: Seq<i32>, start: int, count: int) -> Seq<i32> {
    let end = scan_end_of(start, count, rows.len() as int);
    if start < end {
        rows.subrange(start, end)
    } else {
        Seq::empty()
    }
}

/// Largest number of rows that an in-memory image can hold.
pub open spec fn max_rows() -> int {
    usize::MAX as int / 4
}

/// Decides how an image of `file_len` bytes is recovered on open: a trailing
/// partial record is discarded and the rest are the rows.
pub fn recover(file_len: u64) -> (r: Recovery)
    ensures
        r.valid_len == valid_len_of(file_len as int),
        r.row_count == file_len / 4,
        r.valid_len == 4 * r.row_count,
        r.truncate == (file_len % 4 != 0),
{
    let torn: u64 = file_len % RECORD_SIZE;
    let valid_len: u64 = file_len - torn;
    let row_count: u64 = valid_len / RECORD_SIZE;
    assert(valid_len == 4 * row_count && row_count == file_len / 4) by (nonlinear_arith)
        requires
            torn == file_len % 4,
            valid_len == file_len - torn,
            row_count == valid_len / 4,
    ;
    Recovery { valid_len, row_count, truncate: torn != 0 }
}

/// Byte offset of row `row_id` in a store of `row_count` rows, or `None` when
/// the row does not exist yet.
pub fn row_offset(row_id: u64, row_count: u64) -> (r: Option<u64>)
    requires
        row_count <= u64::MAX / 4,
    ensures
        r == (if row_id < row_count {
            Some((4 * row_id) as u64)
        } else {
            None::<u64>
        }),
{
    if row_id < row_count {
        Some(row_id * RECORD_SIZE)
    } else {
        None
    }
}

/// Whether a store file of `row_count` rows can take `rows` more while every
/// byte offset still fits in a `u64`.
pub fn has_room(row_count: u64, rows: u64) -> (r: bool)
    ensures
        r == (row_count + rows <= u64::MAX / 4),
{
    row_count <= u64::MAX / 4 && rows <= u64::MAX / 4 - row_count
}

/// End (exclusive) of the rows that a scan of `count` rows from `start`
/// covers in a store of `total` rows.
pub fn scan_end(start: u64, count: u64, total: u64) -> (r: u64)
    ensures
        r == scan_end_of(start as int, count as int, total as int),
{
    if start < total && count < total - start {
        start + count
    } else {
        total
    }
}

/// Appending the bytes of a record to a whole-record image appends that
/// record to the rows it holds.
pub proof fn lemma_append_record(image: Seq<u8>, v: i32)
    requires
        image.len() % 4 == 0,
    ensures
        records_of(image + record_bytes(v)) == records_of(image).push(v),
{
    lemma_record_round_trip(v);
    let b = record_bytes(v);
    let grown = image + b;
    let n = (image.len() / 4) as int;
    assert(image.len() == 4 * n);
    assert(grown.len() / 4 == n + 1);
    let lhs = records_of(grown);
    let rhs = records_of(image).push(v);
    assert forall|i: int| 0 <= i < n implies #[trigger] grown.subrange(4 * i, 4 * i + 4)
        == image.subrange(4 * i, 4 * i + 4) by {
        assert(grown.subrange(4 * i, 4 * i + 4) =~= image.subrange(4 * i, 4 * i + 4));
    }
    assert(grown.subrange(4 * n, 4 * n + 4) =~= b);
    assert(lhs.len() == rhs.len());
    assert forall|i: int| 0 <= i < lhs.len() implies lhs[i] == rhs[i] by {
        if i < n {
            assert(grown.subrange(4 * i, 4 * i + 4) == image.subrange(4 * i, 4 * i + 4));
        }
    }
    assert(lhs =~= rhs);
}

/// Cutting a trailing partial record off an image keeps every whole record.
pub proof fn lemma_truncate_keeps_records(image: Seq<u8>)
    ensures
        records_of(image.subrange(0, valid_len_of(image.len() as int))) == records_of(image),
{
    let cut = image.subrange(0, valid_len_of(image.len() as int));
    let lhs = records_of(cut);
    let rhs = records_of(image);
    let n = (image.len() / 4) as int;
    assert(cut.len() == 4 * n);
    assert(lhs.len() == rhs.len());
    assert forall|i: int| 0 <= i < lhs.len() implies lhs[i] == rhs[i] by {
        assert(cut.subrange(4 * i, 4 * i + 4) =~= image.subrange(4 * i, 4 * i + 4));
    }
    assert(lhs =~= rhs);
}

/// A store held in memory: its image is exactly what the store file holds,
/// a flat run of four-byte records.
pub struct RecordStore {
    image: Vec<u8>,
    row_count: u64,
    sync_mode: SyncMode,
}

impl View for RecordStore {
    type V = Seq<i32>;

    /// The rows, in row-id order.
    closed spec fn view(&self) -> Seq<i32> {
        records_of(self.image@)
    }
}

impl RecordStore {
    /// The image holds whole records only, and the row count matches it.
    pub closed spec fn wf(&self) -> bool {
        &&& self.image@.len() == 4 * self.row_count
        &&& self.row_count <= max_rows()
    }

    /// The bytes of the image.
    pub closed spec fn image_bytes(&self) -> Seq<u8> {
        self.image@
    }

    /// The configured durability mode.
    pub closed spec fn mode(&self) -> SyncMode {
        self.sync_mode
    }

    proof fn lemma_wf_len(&self)
        requires
            self.wf(),
        ensures
            self@.len() == self.row_count,
            self.row_count <= max_rows(),
            self.row_count <= u64::MAX / 4,
    {
    }

    /// A store with no rows.
    pub fn new(sync_mode: SyncMode) -> (s: RecordStore)
        ensures
            s.wf(),
            s@ == Seq::<i32>::empty(),
            s.image_bytes() == Seq::<u8>::empty(),
            s.mode() == sync_mode,
    {
        let s = RecordStore { image: Vec::new(), row_count: 0, sync_mode };
        assert(s@ =~= Seq::<i32>::empty());
        s
    }

    /// Opens a store over an existing image, discarding a trailing partial
    /// record.
    pub fn open(image: Vec<u8>, sync_mode: SyncMode) -> (s: RecordStore)
        ensures
            s.wf(),
            s.image_bytes() == image@.subrange(0, valid_len_of(image@.len() as int)),
            s@ == records_of(image@),
            s@.len() == image@.len() / 4,
            s.mode() == sync_mode,
    {
        let mut image = image;
        let len = image.len();
        let rec = recover(len as u64);
        assert(rec.row_count <= max_rows()) by (nonlinear_arith)
            requires
                rec.row_count == len as int / 4,
                len <= usize::MAX,
        ;
        proof {
            lemma_truncate_keeps_records(image@);
        }
        if rec.truncate {
            image.truncate(rec.valid_len as usize);
        }
        RecordStore { image, row_count: rec.row_count, sync_mode }
    }

    /// Appends one record without the durability step.
    fn append(&mut self, value: i32)
        requires
            old(self).wf(),
            old(self)@.len() < max_rows(),
        ensures
            final(self).wf(),
            final(self)@ == old(self)@.push(value),
            final(self).image_bytes() == old(self).image_bytes() + record_bytes(value),
            final(self).mode() == old(self).mode(),
            final(self).row_count == old(self).row_count + 1,
    {
        proof {
            self.lemma_wf_len();
            lemma_append_record(self.image@, value);
        }
        let mut bytes = encode_record(value);
        self.image.append(&mut bytes);
        self.row_count = self.row_count + 1;
    }

    /// Appends one record and returns the row id given to it: the row count
    /// before the write.
    pub fn write(&mut self, value: i32) -> (r: WriteResult)
        requires
            old(self).wf(),
            old(self)@.len() < max_rows(),
        ensures
            final(self).wf(),
            final(self)@ == old(self)@.push(value),
            final(self).image_bytes() == old(self).image_bytes() + record_bytes(value),
            final(self).mode() == old(self).mode(),
            r.row_id == old(self)@.len(),
            r.synced == (old(self).mode() == SyncMode::Fsync),
    {
        proof {
            self.lemma_wf_len();
        }
        let row_id = self.row_count;
        self.append(value);
        WriteResult { row_id, synced: self.sync_mode.syncs_after(1) }
    }

    /// Appends a run of records as one contiguous block of rows, with one
    /// durability step for the whole run. An empty run changes nothing.
    pub fn batch_write(&mut self, values: &[i32]) -> (r: BatchWriteResult)
        requires
            old(self).wf(),
            old(self)@.len() + values@.len() <= max_rows(),
        ensures
            final(self).wf(),
            final(self)@ == old(self)@ + values@,
            final(self).mode() == old(self).mode(),
            r.first_row_id == old(self)@.len(),
            r.rows_written == values@.len(),
            r.synced == (old(self).mode() == SyncMode::Fsync && values@.len() > 0),
    {
        proof {
            self.lemma_wf_len();
        }
        let first_row_id = self.row_count;
        let ghost start = self@;
        let mut i: usize = 0;
        while i < values.len()
            invariant
                self.wf(),
                0 <= i <= values@.len(),
                start.len() + values@.len() <= max_rows(),
                self@ == start + values@.subrange(0, i as int),
                self.mode() == old(self).mode(),
            decreases values@.len() - i,
        {
            proof {
                assert(values@.subrange(0, i + 1) =~= values@.subrange(0, i as int).push(
                    values@[i as int],
                ));
            }
            self.append(values[i]);
            i = i + 1;
        }
        assert(values@.subrange(0, i as int) =~= values@);
        let rows_written = values.len() as u64;
        let synced = self.sync_mode.syncs_after(rows_written);
        BatchWriteResult { rows_written, first_row_id, synced }
    }

    /// The value at `row_id`, or `None` when `row_id` is at or past the row
    /// count.
    pub fn read(&self, row_id: u64) -> (r: Option<i32>)
        requires
            self.wf(),
        ensures
            r == read_result(self@, row_id as int),
    {
        proof {
            self.lemma_wf_len();
        }
        match row_offset(row_id, self.row_count) {
            None => None,
            Some(offset) => {
                let at = offset as usize;
                let bytes = slice_subrange(self.image.as_slice(), at, at + 4);
                Some(decode_record(bytes))
            },
        }
    }

    /// Up to `count` values starting at row `start`, in row-id order, never
    /// past the row count.
    pub fn scan(&self, start: u64, count: u64) -> (r: Vec<i32>)
        requires
            self.wf(),
        ensures
            r@ == scan_result(self@, start as int, count as int),
    {
        proof {
            self.lemma_wf_len();
        }
        let end = scan_end(start, count, self.row_count);
        let mut values: Vec<i32> = Vec::new();
        if start >= end {
            assert(values@ =~= Seq::<i32>::empty());
            return values;
        }
        let mut row: u64 = start;
        while row < end
            invariant
                self.wf(),
                end <= self@.len(),
                start <= row <= end,
                values@ == self@.subrange(start as int, row as int),
            decreases end - row,
        {
            let v = self.read(row);
            match v {
                Some(x) => {
                    values.push(x);
                },
                None => {},
            }
            proof {
                assert(self@.subrange(start as int, row + 1) =~= self@.subrange(
                    start as int,
                    row as int,
                ).push(self@[row as int]));
            }
            row = row + 1;
        }
        values
    }

    /// The number of rows.
    pub fn row_count(&self) -> (r: u64)
        requires
            self.wf(),
        ensures
            r == self@.len(),
    {
        proof {
            self.lemma_wf_len();
        }
        self.row_count
    }

    /// The configured durability mode.
    pub fn sync_mode(&self) -> (r: SyncMode)
        ensures
            r == self.mode(),
    {
        self.sync_mode
    }

    /// The bytes of the image, as the store file would hold them.
    pub fn image(&self) -> (r: &[u8])
        ensures
            r@ == self.image_bytes(),
    {
        self.image.as_slice()
    }
}

} // verus!
