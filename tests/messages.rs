use naive_db::messages::{
    default_scan_count, rows_after_batch, rows_after_write, BatchWriteResponse, ReadResponse,
    ScanQuery, ScanResponse, WriteResponse,
};
use naive_db::store::{BatchWriteResult, WriteResult};

#[test]
fn scan_query_defaults() {
    assert_eq!(default_scan_count(), 100);
    let q = ScanQuery::with_defaults(None, None);
    assert_eq!(q, ScanQuery { start: 0, count: 100 });
    let q = ScanQuery::with_defaults(Some(7), Some(3));
    assert_eq!(q, ScanQuery { start: 7, count: 3 });
    let q = ScanQuery::with_defaults(Some(7), None);
    assert_eq!(q.count, 100);
}

#[test]
fn responses_from_results() {
    let w = WriteResult { row_id: 41, synced: true };
    assert_eq!(WriteResponse::from_result(&w), WriteResponse { row_id: 41 });
    assert_eq!(rows_after_write(&w), 42);
    let b = BatchWriteResult { rows_written: 3, first_row_id: 10, synced: false };
    assert_eq!(
        BatchWriteResponse::from_result(&b),
        BatchWriteResponse { rows_written: 3, first_row_id: 10 }
    );
    assert_eq!(rows_after_batch(&b), 13);
}

#[test]
fn scan_and_read_responses() {
    let r = ScanResponse::from_values(vec![42, 7]);
    assert_eq!(r.values, vec![42, 7]);
    assert_eq!(r.count, 2);
    let r = ScanResponse::from_values(Vec::new());
    assert_eq!(r.count, 0);
    assert_eq!(ReadResponse::from_value(Some(-5)), Some(ReadResponse { value: -5 }));
    assert_eq!(ReadResponse::from_value(None), None);
}
