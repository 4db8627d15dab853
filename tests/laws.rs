use klstore::cache::CachedKey;
use klstore::keypath::Watermark;
use klstore::records::{deserialize_and_filter_records, nonce_filter, serialize_insertion_at, RecordFilter};
use klstore::writer::prepare_append;
use klstore::{Direction, Insertion, KeyMetadata, Record, StartPosition};

fn ins(v: u8, nonce: Option<u128>) -> Insertion {
    Insertion { record: vec![v], nonce, timestamp: Some(v as i64) }
}

fn body(batch: &[Insertion], first: u64) -> Vec<u8> {
    let refs: Vec<&Insertion> = batch.iter().collect();
    serialize_insertion_at(&refs, first, 0).buffer
}

#[test]
fn kept_nonces_increase() {
    let batch = vec![ins(1, Some(4)), ins(2, None), ins(3, Some(4)), ins(4, Some(9)), ins(5, Some(7)), ins(6, None)];
    let r = nonce_filter(&batch, 2);
    let nonces: Vec<u128> = r.records.iter().filter_map(|i| i.nonce).collect();
    assert_eq!(nonces, vec![4, 9]);
    assert!(nonces.windows(2).all(|w| w[0] < w[1]));
    assert!(nonces.iter().all(|n| *n >= 2 && *n < r.next_nonce));
    let values: Vec<u8> = r.records.iter().map(|i| i.record[0]).collect();
    assert_eq!(values, vec![1, 2, 4, 6]);
}

#[test]
fn batch_reads_back_whole_with_dense_offsets() {
    let batch: Vec<Insertion> = (1..=6).map(|v| ins(v, None)).collect();
    let buffer = body(&batch, 40);
    let filter = RecordFilter::from(&StartPosition::First, 100, Direction::Forwards);
    let mut out: Vec<Record> = Vec::new();
    assert!(deserialize_and_filter_records(&buffer, &mut out, &filter, 0).unwrap());
    let offsets: Vec<u64> = out.iter().map(|r| r.offset).collect();
    assert_eq!(offsets, (40..46).collect::<Vec<u64>>());
    let values: Vec<u8> = out.iter().map(|r| r.value[0]).collect();
    assert_eq!(values, vec![1, 2, 3, 4, 5, 6]);
}

#[test]
fn next_offset_follows_the_last_record() {
    let state = CachedKey {
        metadata: KeyMetadata { next_offset: 8, next_nonce: 0 },
        uncompacted_objects: 0,
        uncompacted_records: 0,
        uncompacted_size: 0,
        prior_start_offset: 3,
        watermark: Watermark::new(0),
    };
    let batch = vec![ins(1, None), ins(2, None), ins(3, None)];
    let p = prepare_append(&state, &batch, 0, "", "ks", "k").unwrap().unwrap();
    assert_eq!(p.key_path.last_offset, 10);
    assert_eq!(p.state.metadata.next_offset, 11);
    assert_eq!(p.key_path.to_metadata().next_offset, 11);
}

#[test]
fn merged_body_reads_like_its_sources() {
    let first: Vec<Insertion> = (1..=3).map(|v| ins(v, None)).collect();
    let second: Vec<Insertion> = (4..=5).map(|v| ins(v, None)).collect();
    let a = body(&first, 1);
    let b = body(&second, 4);
    let mut merged = a.clone();
    merged.extend_from_slice(&b);
    for max in 1..7u64 {
        let filter = RecordFilter::from(&StartPosition::First, max, Direction::Forwards);
        let mut separate: Vec<Record> = Vec::new();
        let full = deserialize_and_filter_records(&a, &mut separate, &filter, 0).unwrap();
        if full {
            deserialize_and_filter_records(&b, &mut separate, &filter, 0).unwrap();
        }
        let mut together: Vec<Record> = Vec::new();
        deserialize_and_filter_records(&merged, &mut together, &filter, 0).unwrap();
        let s: Vec<u64> = separate.iter().map(|r| r.offset).collect();
        let t: Vec<u64> = together.iter().map(|r| r.offset).collect();
        assert_eq!(s, t);
        let back = RecordFilter::from(&StartPosition::First, max, Direction::Backwards);
        let mut separate: Vec<Record> = Vec::new();
        let full = deserialize_and_filter_records(&b, &mut separate, &back, u64::MAX).unwrap();
        if full {
            deserialize_and_filter_records(&a, &mut separate, &back, u64::MAX).unwrap();
        }
        let mut together: Vec<Record> = Vec::new();
        deserialize_and_filter_records(&merged, &mut together, &back, u64::MAX).unwrap();
        let s: Vec<u64> = separate.iter().map(|r| r.offset).collect();
        let t: Vec<u64> = together.iter().map(|r| r.offset).collect();
        assert_eq!(s, t);
    }
}
