//! The shapes in which the store's operations are requested and answered,
//! and how each answer is built from what the store returned.

use crate::store::{BatchWriteResult, WriteResult};
use vstd::prelude::*;

verus! {

/// A request to append one value.
pub struct WriteRequest {
    pub value: i32,
}

/// The row id that a write received.
#[derive(Debug, Clone, Copy, PartialEq, Eq, Structural)]
pub struct WriteResponse {
    pub row_id: u64,
}

/// A request to append a run of values.
pub struct BatchWriteRequest {
    pub values: Vec<i32>,
}

/// How many rows a batch wrote and the row id of the first.
#[derive(Debug, Clone, Copy, PartialEq, Eq, Structural)]
pub struct BatchWriteResponse {
    pub rows_written: u64,
    pub first_row_id: u64,
}

/// Where a scan starts and how many rows it asks for.
#[derive(Debug, Clone, Copy, PartialEq, Eq, Structural)]
pub struct ScanQuery {
    pub start: u64,
    pub count: u64,
}

/// The values a scan found, and how many.
pub struct ScanResponse {
    pub values: Vec<i32>,
    pub count: u64,
}

/// The value found at a row.
#[derive(Debug, Clone, Copy, PartialEq, Eq, Structural)]
pub struct ReadResponse {
    pub value: i32,
}

/// Number of rows a scan asks for when the request names none.
pub fn default_scan_count() -> (r: u64)
    ensures
        r == 100,
{
    100
}

impl ScanQuery {
    /// A scan query from the parameters given, starting at row 0 and asking
    /// for `default_scan_count()` rows where a parameter is absent.
    pub fn with_defaults(start: Option<u64>, count: Option<u64>) -> (q: ScanQuery)
        ensures
            q.start == (if start is Some {
                start->0
            } else {
                0
            }),
            q.count == (if count is Some {
                count->0
            } else {
                100
            }),
    {
        let start = match start {
            Some(s) => s,
            None => 0,
        };
        let count = match count {
            Some(c) => c,
            None => default_scan_count(),
        };
        ScanQuery { start, count }
    }
}

impl WriteResponse {
    /// The answer to a completed write.
    pub fn from_result(result: &WriteResult) -> (r: WriteResponse)
        ensures
            r.row_id == result.row_id,
    {
        WriteResponse { row_id: result.row_id }
    }
}

impl BatchWriteResponse {
    /// The answer to a completed batch.
    pub fn from_result(result: &BatchWriteResult) -> (r: BatchWriteResponse)
        ensures
            r.rows_written == result.rows_written,
            r.first_row_id == result.first_row_id,
    {
        BatchWriteResponse { rows_written: result.rows_written, first_row_id: result.first_row_id }
    }
}

impl ScanResponse {
    /// The answer to a scan: the values found and their number.
    pub fn from_values(values: Vec<i32>) -> (r: ScanResponse)
        ensures
            r.values@ == values@,
            r.count == values@.len(),
    {
        let count = values.len() as u64;
        ScanResponse { values, count }
    }
}

impl ReadResponse {
    /// The answer to a read: the value, or `None` where the row was not
    /// found.
    pub fn from_value(value: Option<i32>) -> (r: Option<ReadResponse>)
        ensures
            r == (if value is Some {
                Some(ReadResponse { value: value->0 })
            } else {
                None::<ReadResponse>
            }),
    {
        match value {
            Some(v) => Some(ReadResponse { value: v }),
            None => None,
        }
    }
}

/// Row count that the store reports once a write has completed.
pub fn rows_after_write(result: &WriteResult) -> (r: u64)
    requires
        result.row_id < u64::MAX,
    ensures
        r == result.row_id + 1,
{
    result.row_id + 1
}

/// Row count that the store reports once a batch has completed.
pub fn rows_after_batch(result: &BatchWriteResult) -> (r: u64)
    requires
        result.first_row_id + result.rows_written <= u64::MAX,
    ensures
        r == result.first_row_id + result.rows_written,
{
    result.first_row_id + result.rows_written
}

} // verus!
