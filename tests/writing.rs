use klstore::cache::{CachedKey, StoreCache};
use klstore::keypath::{KeyPath, KeyPathParser, Watermark};
use klstore::writer::{
    merged_key_path, merged_state, parse_listing, plan_compaction, prepare_append,
    single_object_state, summarize_key_paths,
};
use klstore::records::{deserialize_and_filter_records, RecordFilter};
use klstore::{Direction, Insertion, KeyMetadata, Record, StartPosition, StoreError};

fn fresh() -> CachedKey {
    CachedKey {
        metadata: KeyMetadata { next_offset: 1, next_nonce: 0 },
        uncompacted_objects: 0,
        uncompacted_records: 0,
        uncompacted_size: 0,
        prior_start_offset: 0,
        watermark: Watermark::new(0),
    }
}

fn kp(first: u64, last: u64, min_ts: i64, max_ts: i64, size: u64, prior: u64) -> KeyPath {
    KeyPath {
        first_offset: first,
        last_offset: last,
        min_timestamp: min_ts,
        max_timestamp: max_ts,
        first_nonce: first as u128,
        next_nonce: last as u128 + 1,
        size,
        prior_start_offset: prior,
    }
}

#[test]
fn append_writes_one_object_and_moves_the_state() {
    let records = vec![
        Insertion { record: b"a".to_vec(), nonce: None, timestamp: Some(5) },
        Insertion { record: b"b".to_vec(), nonce: Some(3), timestamp: None },
    ];
    let p = prepare_append(&fresh(), &records, 42, "", "ks", "k").unwrap().unwrap();
    assert_eq!(p.path, "ks/k/data_o00000000000000000001-o2_t5-t42_n3-n4_s82_p0.bin");
    assert_eq!(p.buffer.len(), 82);
    assert_eq!(p.state.metadata, KeyMetadata { next_offset: 3, next_nonce: 4 });
    assert_eq!(p.state.uncompacted_records, 2);
    assert_eq!(p.state.uncompacted_objects, 1);
    assert_eq!(p.state.uncompacted_size, 82);
    assert_eq!(p.state.prior_start_offset, 1);
    let filter = RecordFilter::from(&StartPosition::First, 10, Direction::Forwards);
    let mut out: Vec<Record> = Vec::new();
    assert!(deserialize_and_filter_records(&p.buffer, &mut out, &filter, 0).unwrap());
    assert_eq!(out.len(), 2);
    assert_eq!(out[1].timestamp, 42);
    assert_eq!(out[1].nonce, Some(3));
}

#[test]
fn append_of_stale_nonces_writes_nothing() {
    let mut state = fresh();
    state.metadata.next_nonce = 10;
    let records = vec![Insertion { record: b"v".to_vec(), nonce: Some(3), timestamp: None }];
    assert!(prepare_append(&state, &records, 0, "", "ks", "k").unwrap().is_none());
}

#[test]
fn append_rejects_the_reserved_nonce_and_full_offsets() {
    let records = vec![Insertion { record: b"v".to_vec(), nonce: Some(u128::MAX), timestamp: None }];
    assert!(matches!(prepare_append(&fresh(), &records, 0, "", "ks", "k"), Err(StoreError::BadData(_))));
    let mut state = fresh();
    state.metadata.next_offset = u64::MAX;
    let records = vec![Insertion { record: b"v".to_vec(), nonce: None, timestamp: None }];
    assert!(matches!(prepare_append(&state, &records, 0, "", "ks", "k"), Err(StoreError::BadData(_))));
}

#[test]
fn compaction_plans() {
    let mut k = fresh();
    assert_eq!(plan_compaction(&k, 1000, 1 << 20, 100), None);
    k.uncompacted_objects = 100;
    assert_eq!(plan_compaction(&k, 1000, 1 << 20, 100), Some(false));
    k.uncompacted_records = 1000;
    assert_eq!(plan_compaction(&k, 1000, 1 << 20, 100), Some(true));
    let mut s = fresh();
    s.uncompacted_size = 1 << 20;
    assert_eq!(plan_compaction(&s, 1000, 1 << 20, 100), Some(true));
}

#[test]
fn merged_object_spans_its_sources() {
    let objects = vec![kp(11, 20, 5, 9, 100, 1), kp(21, 25, 2, 30, 50, 11), kp(26, 26, 7, 8, 10, 21)];
    let m = merged_key_path(&objects, 160);
    assert_eq!(m, KeyPath {
        first_offset: 11,
        last_offset: 26,
        min_timestamp: 2,
        max_timestamp: 30,
        first_nonce: 11,
        next_nonce: 27,
        size: 160,
        prior_start_offset: 1,
    });
}

#[test]
fn compaction_states() {
    let mut k = fresh();
    k.uncompacted_records = 7;
    k.uncompacted_size = 70;
    k.uncompacted_objects = 3;
    let only = kp(5, 9, 0, 0, 1, 1);
    let s = single_object_state(&k, &only);
    assert_eq!((s.uncompacted_records, s.uncompacted_objects, s.watermark.offset), (0, 0, 5));
    let a = merged_state(&k, &only, true);
    assert_eq!((a.uncompacted_records, a.prior_start_offset, a.watermark.offset), (0, 5, 5));
    let b = merged_state(&k, &only, false);
    assert_eq!((b.uncompacted_records, b.uncompacted_objects, b.uncompacted_size), (7, 1, 70));
    assert_eq!(b.watermark.offset, 0);
}

#[test]
fn key_state_from_listing() {
    let list = vec![kp(1, 1000, 0, 0, 5000, 0), kp(1001, 1010, 0, 0, 50, 1), kp(1011, 1012, 0, 0, 10, 1001)];
    let s = summarize_key_paths(&list, Some(Watermark::new(1)), 1000).unwrap();
    assert_eq!(s.metadata, KeyMetadata { next_offset: 1013, next_nonce: 1013 });
    assert_eq!((s.uncompacted_records, s.uncompacted_objects, s.uncompacted_size), (12, 2, 60));
    assert_eq!(s.prior_start_offset, 1011);
    assert_eq!(s.watermark.offset, 1);
    let all = summarize_key_paths(&list, None, 2000).unwrap();
    assert_eq!((all.uncompacted_records, all.uncompacted_objects), (1012, 3));
    let empty = summarize_key_paths(&Vec::new(), None, 1000).unwrap();
    assert_eq!(empty.metadata, KeyMetadata { next_offset: 1, next_nonce: 0 });
    let bad = vec![kp(5, 4, 0, 0, 0, 0)];
    assert!(matches!(summarize_key_paths(&bad, None, 10), Err(StoreError::BadData(_))));
}

#[test]
fn listing_is_parsed_or_rejected() {
    let parser = KeyPathParser::new();
    let good = vec![kp(1, 2, 0, 0, 1, 0).to_path("", "ks", "k")];
    assert_eq!(parse_listing(&parser, &good).unwrap(), vec![kp(1, 2, 0, 0, 1, 0)]);
    let bad = vec!["ks/k/watermark".to_string()];
    assert!(matches!(parse_listing(&parser, &bad), Err(StoreError::BadData(_))));
}

#[test]
fn cache_evicts_the_oldest_key() {
    let mut cache = StoreCache::new(2);
    cache.set_key("ks", "a", fresh());
    cache.set_key("ks", "b", fresh());
    let mut c = fresh();
    c.uncompacted_objects = 9;
    cache.set_key("ks", "c", c);
    assert_eq!(cache.get_key("ks", "a"), None);
    assert_eq!(cache.get_key("ks", "c"), Some(c));
    assert!(cache.get_key("ks", "b").is_some());
    let got = cache.get_or_insert_key("ks", "c", fresh());
    assert_eq!(got, c);
    let mut one = StoreCache::new(0);
    one.set_key("ks", "x", fresh());
    assert!(one.get_key("ks", "x").is_some());
}
