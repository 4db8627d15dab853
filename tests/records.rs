use klstore::records::{
    deserialize_and_filter_records, nonce_filter, serialize_insertion, serialize_insertion_at,
    RecordFilter, RecordHeader,
};
use klstore::{Direction, Insertion, Record, StartPosition, StoreError};

fn ins(value: &str, nonce: Option<u128>, timestamp: Option<i64>) -> Insertion {
    Insertion { record: value.as_bytes().to_vec(), nonce, timestamp }
}

fn read_all(buffer: &Vec<u8>, filter: &RecordFilter, cont: u64) -> (Vec<Record>, bool) {
    let mut records: Vec<Record> = Vec::new();
    let full = deserialize_and_filter_records(buffer, &mut records, filter, cont).unwrap();
    (records, full)
}

#[test]
fn three_values_read_back_forward() {
    let batch = vec![ins("a", None, Some(10)), ins("b", None, Some(11)), ins("c", None, Some(12))];
    let refs: Vec<&Insertion> = batch.iter().collect();
    let s = serialize_insertion_at(&refs, 1, 0);
    assert_eq!(s.first_insert_offset, 1);
    assert_eq!(s.last_insert_offset, 3);
    assert_eq!(s.next_offset, 4);
    assert_eq!(s.buffer.len(), 3 * 41);
    let filter = RecordFilter::from(&StartPosition::First, 10, Direction::Forwards);
    let (records, full) = read_all(&s.buffer, &filter, 0);
    assert!(full);
    let offsets: Vec<u64> = records.iter().map(|r| r.offset).collect();
    let values: Vec<Vec<u8>> = records.iter().map(|r| r.value.clone()).collect();
    assert_eq!(offsets, vec![1, 2, 3]);
    assert_eq!(values, vec![b"a".to_vec(), b"b".to_vec(), b"c".to_vec()]);
}

#[test]
fn frame_layout_matches_the_format() {
    let batch = vec![ins("xy", Some(7), Some(-3))];
    let refs: Vec<&Insertion> = batch.iter().collect();
    let s = serialize_insertion_at(&refs, 5, 0);
    let mut expected: Vec<u8> = Vec::new();
    expected.extend_from_slice(&5u64.to_le_bytes());
    expected.extend_from_slice(&(-3i64).to_le_bytes());
    expected.extend_from_slice(&7u128.to_le_bytes());
    expected.extend_from_slice(&2u32.to_le_bytes());
    expected.extend_from_slice(b"xy");
    expected.extend_from_slice(&38u32.to_le_bytes());
    assert_eq!(s.buffer, expected);
    assert_eq!(s.min_timestamp, -3);
    assert_eq!(s.max_timestamp, -3);
    let h = RecordHeader::deserialize(&s.buffer, 0).unwrap();
    assert_eq!((h.offset, h.timestamp, h.nonce, h.length), (5, -3, Some(7), 2));
}

#[test]
fn missing_timestamps_take_now() {
    let batch = vec![ins("a", None, None), ins("b", None, Some(5))];
    let refs: Vec<&Insertion> = batch.iter().collect();
    let s = serialize_insertion_at(&refs, 1, 99);
    assert_eq!(s.min_timestamp, 5);
    assert_eq!(s.max_timestamp, 99);
    let s2 = serialize_insertion(&refs, 1);
    assert_eq!(s2.min_timestamp, 5);
    assert!(s2.max_timestamp > 1_500_000_000_000);
}

#[test]
fn empty_batch_has_extreme_timestamps() {
    let refs: Vec<&Insertion> = Vec::new();
    let s = serialize_insertion_at(&refs, 4, 0);
    assert_eq!(s.min_timestamp, i64::MAX);
    assert_eq!(s.max_timestamp, i64::MIN);
    assert_eq!(s.last_insert_offset, 3);
    assert!(s.buffer.is_empty());
}

#[test]
fn filters_default_to_the_direction_extremes() {
    let f = RecordFilter::from(&StartPosition::Timestamp(250), 10, Direction::Forwards);
    assert!(!f.defined);
    assert!(RecordFilter::from(&StartPosition::Nonce(1), 10, Direction::Forwards).defined);
    assert_eq!((f.start_offset, f.start_timestamp, f.start_nonce), (0, 250, 0));
    let b = RecordFilter::from(&StartPosition::First, 3, Direction::Backwards);
    assert!(!b.defined);
    assert_eq!((b.start_offset, b.start_timestamp, b.start_nonce), (u64::MAX, i64::MAX, u128::MAX));
    let o = RecordFilter::for_offset(7, 3, Direction::Backwards);
    assert_eq!((o.start_offset, o.start_timestamp, o.start_nonce), (7, i64::MAX, u128::MAX));
}

#[test]
fn timestamp_filter_starts_at_the_first_later_record() {
    let batch: Vec<Insertion> = [100, 200, 300, 400, 500]
        .iter()
        .enumerate()
        .map(|(i, t)| ins("v", Some(i as u128 + 1), Some(*t)))
        .collect();
    let refs: Vec<&Insertion> = batch.iter().collect();
    let s = serialize_insertion_at(&refs, 1, 0);
    let filter = RecordFilter::from(&StartPosition::Timestamp(250), 10, Direction::Forwards);
    let (records, _) = read_all(&s.buffer, &filter, 0);
    let offsets: Vec<u64> = records.iter().map(|r| r.offset).collect();
    assert_eq!(offsets, vec![3, 4, 5]);
}

#[test]
fn backward_pages_walk_offsets_down() {
    let batch: Vec<Insertion> = (0..10).map(|i| ins(&format!("v{}", i), None, Some(i))).collect();
    let refs: Vec<&Insertion> = batch.iter().collect();
    let s = serialize_insertion_at(&refs, 1, 0);
    let filter = RecordFilter::from(&StartPosition::First, 3, Direction::Backwards);
    let (records, full) = read_all(&s.buffer, &filter, u64::MAX);
    assert!(!full);
    let offsets: Vec<u64> = records.iter().map(|r| r.offset).collect();
    assert_eq!(offsets, vec![10, 9, 8]);
    assert_eq!(records[0].value, b"v9".to_vec());
    let next = RecordFilter::for_offset(7, 3, Direction::Backwards);
    let (records, _) = read_all(&s.buffer, &next, 7);
    let offsets: Vec<u64> = records.iter().map(|r| r.offset).collect();
    assert_eq!(offsets, vec![7, 6, 5]);
}

#[test]
fn nonce_less_records_wait_for_a_match() {
    let batch = vec![ins("a", None, Some(1)), ins("b", Some(4), Some(2)), ins("c", None, Some(3))];
    let refs: Vec<&Insertion> = batch.iter().collect();
    let s = serialize_insertion_at(&refs, 1, 0);
    let filter = RecordFilter::from(&StartPosition::Nonce(3), 10, Direction::Forwards);
    let (records, _) = read_all(&s.buffer, &filter, 0);
    let offsets: Vec<u64> = records.iter().map(|r| r.offset).collect();
    assert_eq!(offsets, vec![2, 3]);
}

#[test]
fn truncated_body_is_bad_data() {
    let batch = vec![ins("abc", None, Some(1))];
    let refs: Vec<&Insertion> = batch.iter().collect();
    let s = serialize_insertion_at(&refs, 1, 0);
    let cut = s.buffer[..s.buffer.len() - 2].to_vec();
    let filter = RecordFilter::from(&StartPosition::First, 10, Direction::Forwards);
    let mut records: Vec<Record> = Vec::new();
    assert!(matches!(
        deserialize_and_filter_records(&cut, &mut records, &filter, 0),
        Err(StoreError::BadData(_))
    ));
    let back = RecordFilter::from(&StartPosition::First, 10, Direction::Backwards);
    let mut records: Vec<Record> = Vec::new();
    assert!(matches!(
        deserialize_and_filter_records(&cut, &mut records, &back, u64::MAX),
        Err(StoreError::BadData(_))
    ));
}

#[test]
fn equal_nonces_keep_one_record() {
    let batch = vec![ins("v1", Some(5), None), ins("v2", Some(5), None)];
    let r = nonce_filter(&batch, 0);
    assert_eq!(r.records.len(), 1);
    assert_eq!(r.records[0].record, b"v1".to_vec());
    assert_eq!(r.first_nonce, Some(5));
    assert_eq!(r.next_nonce, 6);
}

#[test]
fn stale_nonce_is_a_no_op() {
    let batch = vec![ins("v", Some(3), None)];
    let r = nonce_filter(&batch, 10);
    assert!(r.records.is_empty());
    assert_eq!(r.first_nonce, None);
    assert_eq!(r.first_potential_nonce, 10);
    assert_eq!(r.next_nonce, 10);
}

#[test]
fn nonce_filter_drops_repeats_and_offsets_stay_dense() {
    let batch: Vec<Insertion> = [1u128, 2, 5, 2, 6].iter().map(|n| ins("v", Some(*n), Some(1))).collect();
    let r = nonce_filter(&batch, 0);
    let nonces: Vec<Option<u128>> = r.records.iter().map(|i| i.nonce).collect();
    assert_eq!(nonces, vec![Some(1), Some(2), Some(5), Some(6)]);
    assert_eq!(r.next_nonce, 7);
    let s = serialize_insertion_at(&r.records, 1, 0);
    let filter = RecordFilter::from(&StartPosition::First, 10, Direction::Forwards);
    let (records, _) = read_all(&s.buffer, &filter, 0);
    let offsets: Vec<u64> = records.iter().map(|r| r.offset).collect();
    assert_eq!(offsets, vec![1, 2, 3, 4]);
    let read_nonces: Vec<Option<u128>> = records.iter().map(|r| r.nonce).collect();
    assert_eq!(read_nonces, vec![Some(1), Some(2), Some(5), Some(6)]);
}

#[test]
fn records_without_nonce_pass_the_nonce_filter() {
    let batch = vec![ins("a", Some(4), None), ins("b", None, None), ins("c", Some(2), None)];
    let r = nonce_filter(&batch, 0);
    assert_eq!(r.records.len(), 2);
    assert_eq!(r.records[1].record, b"b".to_vec());
}

#[test]
fn timestamp_filter_keeps_records_without_nonce() {
    let batch: Vec<Insertion> = [100, 200, 300, 400, 500].iter().map(|t| ins("v", None, Some(*t))).collect();
    let refs: Vec<&Insertion> = batch.iter().collect();
    let s = serialize_insertion_at(&refs, 1, 0);
    let filter = RecordFilter::from(&StartPosition::Timestamp(250), 10, Direction::Forwards);
    let (records, _) = read_all(&s.buffer, &filter, 0);
    let offsets: Vec<u64> = records.iter().map(|r| r.offset).collect();
    let stamps: Vec<i64> = records.iter().map(|r| r.timestamp).collect();
    assert_eq!(offsets, vec![3, 4, 5]);
    assert_eq!(stamps, vec![300, 400, 500]);
}
