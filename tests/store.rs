use naive_db::record::{decode_record, encode_record, RECORD_SIZE};
use naive_db::store::{has_room, recover, row_offset, scan_end, RecordStore, SyncMode};

#[test]
fn fresh_store_example() {
    let mut s = RecordStore::new(SyncMode::Fsync);
    assert_eq!(s.write(42).row_id, 0);
    assert_eq!(s.write(7).row_id, 1);
    assert_eq!(s.read(0), Some(42));
    assert_eq!(s.read(2), None);
    let values = s.scan(0, 10);
    assert_eq!(values, vec![42, 7]);
    assert_eq!(values.len(), 2);
}

#[test]
fn row_ids_increase_without_gaps() {
    let mut s = RecordStore::new(SyncMode::NoSync);
    assert_eq!(s.write(5).row_id, 0);
    let b = s.batch_write(&[1, 2, 3]);
    assert_eq!(b.first_row_id, 1);
    assert_eq!(b.rows_written, 3);
    assert_eq!(s.write(9).row_id, 4);
    let b2 = s.batch_write(&[]);
    assert_eq!(b2.first_row_id, 5);
    assert_eq!(b2.rows_written, 0);
    assert_eq!(s.write(10).row_id, 5);
    assert_eq!(s.row_count(), 6);
}

#[test]
fn write_reads_back_extremes() {
    let mut s = RecordStore::new(SyncMode::Fsync);
    for v in [0, -1, 1, i32::MIN, i32::MAX, 123456789, -987654321] {
        let r = s.write(v);
        assert_eq!(s.read(r.row_id), Some(v));
    }
}

#[test]
fn batch_is_contiguous() {
    let mut s = RecordStore::new(SyncMode::Fsync);
    s.write(-3);
    let vals = [10, -20, 30, i32::MIN];
    let b = s.batch_write(&vals);
    for (i, v) in vals.iter().enumerate() {
        assert_eq!(s.read(b.first_row_id + i as u64), Some(*v));
    }
    assert_eq!(s.row_count(), 5);
}

#[test]
fn count_matches_appended_rows() {
    let mut s = RecordStore::new(SyncMode::NoSync);
    s.batch_write(&[1, 2]);
    s.write(3);
    s.batch_write(&[4, 5, 6, 7]);
    assert_eq!(s.row_count(), 7);
    assert_eq!(s.image().len(), 28);
}

#[test]
fn not_found_boundary() {
    let mut s = RecordStore::new(SyncMode::NoSync);
    assert_eq!(s.read(0), None);
    s.batch_write(&[8, 9, 10]);
    assert_eq!(s.read(s.row_count()), None);
    assert_eq!(s.read(s.row_count() + 5), None);
    assert_eq!(s.read(u64::MAX), None);
    assert_eq!(s.read(s.row_count() - 1), Some(10));
}

#[test]
fn scan_clamps_to_row_count() {
    let mut s = RecordStore::new(SyncMode::NoSync);
    s.batch_write(&[1, 2, 3, 4, 5]);
    assert_eq!(s.scan(1, 2), vec![2, 3]);
    assert_eq!(s.scan(3, 10), vec![4, 5]);
    assert_eq!(s.scan(5, 10), Vec::<i32>::new());
    assert_eq!(s.scan(9, 1), Vec::<i32>::new());
    assert_eq!(s.scan(0, 0), Vec::<i32>::new());
    assert_eq!(s.scan(2, u64::MAX), vec![3, 4, 5]);
    assert_eq!(s.scan(u64::MAX, u64::MAX), Vec::<i32>::new());
}

#[test]
fn open_truncates_torn_record() {
    let mut s = RecordStore::new(SyncMode::Fsync);
    s.batch_write(&[11, -12, 13]);
    let mut image = s.image().to_vec();
    image.extend_from_slice(&[0xAA, 0xBB]);
    assert_eq!(image.len(), 14);
    let reopened = RecordStore::open(image, SyncMode::Fsync);
    assert_eq!(reopened.row_count(), 3);
    assert_eq!(reopened.image().len(), 12);
    assert_eq!(reopened.scan(0, 100), vec![11, -12, 13]);
}

#[test]
fn open_keeps_whole_image() {
    let image = vec![1, 0, 0, 0, 0xff, 0xff, 0xff, 0xff];
    let s = RecordStore::open(image, SyncMode::NoSync);
    assert_eq!(s.row_count(), 2);
    assert_eq!(s.read(0), Some(1));
    assert_eq!(s.read(1), Some(-1));
    assert_eq!(s.sync_mode(), SyncMode::NoSync);
}

#[test]
fn open_image_shorter_than_a_record() {
    let s = RecordStore::open(vec![1, 2, 3], SyncMode::Fsync);
    assert_eq!(s.row_count(), 0);
    assert_eq!(s.image().len(), 0);
}

#[test]
fn recover_lengths() {
    let r = recover(4 * 7 + 3);
    assert_eq!(r.valid_len, 28);
    assert_eq!(r.row_count, 7);
    assert!(r.truncate);
    let r = recover(40);
    assert_eq!(r.valid_len, 40);
    assert_eq!(r.row_count, 10);
    assert!(!r.truncate);
    let r = recover(0);
    assert_eq!(r.row_count, 0);
    assert!(!r.truncate);
    let r = recover(u64::MAX);
    assert_eq!(r.valid_len, u64::MAX - 3);
    assert_eq!(r.row_count, u64::MAX / 4);
}

#[test]
fn record_layout_is_little_endian() {
    assert_eq!(RECORD_SIZE, 4);
    assert_eq!(encode_record(1), vec![1, 0, 0, 0]);
    assert_eq!(encode_record(-2), vec![0xfe, 0xff, 0xff, 0xff]);
    assert_eq!(encode_record(0x12345678), vec![0x78, 0x56, 0x34, 0x12]);
    assert_eq!(decode_record(&[0x78, 0x56, 0x34, 0x12]), 0x12345678);
    assert_eq!(decode_record(&[0, 0, 0, 0x80]), i32::MIN);
    assert_eq!(decode_record(&encode_record(-7)), -7);
}

#[test]
fn image_holds_encoded_records() {
    let mut s = RecordStore::new(SyncMode::Fsync);
    s.write(258);
    s.write(-1);
    assert_eq!(s.image(), &[2, 1, 0, 0, 0xff, 0xff, 0xff, 0xff][..]);
}

#[test]
fn durability_step_follows_mode() {
    let mut durable = RecordStore::new(SyncMode::Fsync);
    assert!(durable.write(1).synced);
    assert!(durable.batch_write(&[1, 2]).synced);
    assert!(!durable.batch_write(&[]).synced);
    let mut relaxed = RecordStore::new(SyncMode::NoSync);
    assert!(!relaxed.write(1).synced);
    assert!(!relaxed.batch_write(&[1, 2]).synced);
    assert!(SyncMode::Fsync.syncs_after(3));
    assert!(!SyncMode::Fsync.syncs_after(0));
    assert!(!SyncMode::NoSync.syncs_after(3));
}

#[test]
fn sync_mode_from_setting() {
    assert_eq!(SyncMode::from_setting(Some("nosync".to_string())), SyncMode::NoSync);
    assert_eq!(SyncMode::from_setting(Some("fsync".to_string())), SyncMode::Fsync);
    assert_eq!(SyncMode::from_setting(Some("NOSYNC".to_string())), SyncMode::Fsync);
    assert_eq!(SyncMode::from_setting(Some(String::new())), SyncMode::Fsync);
    assert_eq!(SyncMode::from_setting(None), SyncMode::Fsync);
}

#[test]
fn offsets_and_scan_bounds() {
    assert_eq!(row_offset(0, 3), Some(0));
    assert_eq!(row_offset(2, 3), Some(8));
    assert_eq!(row_offset(3, 3), None);
    assert_eq!(row_offset(9, 3), None);
    assert_eq!(scan_end(2, 3, 10), 5);
    assert_eq!(scan_end(8, 5, 10), 10);
    assert_eq!(scan_end(12, 5, 10), 10);
    assert_eq!(scan_end(1, u64::MAX, 10), 10);
}

#[test]
fn room_for_more_rows() {
    assert!(has_room(0, 1));
    assert!(has_room(u64::MAX / 4 - 1, 1));
    assert!(!has_room(u64::MAX / 4, 1));
    assert!(has_room(u64::MAX / 4, 0));
    assert!(!has_room(1, u64::MAX));
}
