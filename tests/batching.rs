use klstore::batching::{lane, BatchingStoreWriterConfig, LaneBatches};
use klstore::Insertion;

fn ins(v: &[u8]) -> Insertion {
    Insertion { record: v.to_vec(), nonce: None, timestamp: None }
}

#[test]
fn config_defaults_and_setters() {
    let c = BatchingStoreWriterConfig::new();
    assert_eq!(c.writer_thread_count, 1);
    assert_eq!(c.writer_thread_queue_capacity, None);
    assert_eq!(c.batch_check_interval_millis, 100);
    assert_eq!(c.batch_flush_interval_millis, 1000);
    assert_eq!(c.batch_flush_item_count_threshold, u64::MAX);
    assert_eq!(c.batch_flush_size_threshold, 1024 * 1024);
    let c = c
        .set_writer_thread_count(4)
        .set_writer_thread_queue_capacity(Some(10))
        .set_batch_check_interval_millis(5)
        .set_batch_flush_interval_millis(6)
        .set_batch_flush_item_count_threshold(7)
        .set_batch_flush_size_threshold(8);
    assert_eq!(c.writer_thread_count, 4);
    assert_eq!(c.writer_thread_queue_capacity, Some(10));
    assert_eq!(
        (c.batch_check_interval_millis, c.batch_flush_interval_millis, c.batch_flush_item_count_threshold, c.batch_flush_size_threshold),
        (5, 6, 7, 8)
    );
}

#[test]
fn lanes_are_stable_and_in_range() {
    for n in 1..8u64 {
        let a = lane("ks", "key", n);
        assert!((a as u64) < n);
        assert_eq!(a, lane("ks", "key", n));
    }
    assert_eq!(lane("ks", "key", 1), 0);
}

#[test]
fn batches_gather_until_a_threshold() {
    let config = BatchingStoreWriterConfig::new().set_batch_flush_item_count_threshold(3);
    let mut lane_batches = LaneBatches::new(&config);
    assert!(lane_batches.append("ks", "a", vec![ins(b"1")], 1000).is_empty());
    assert!(lane_batches.append("ks", "b", vec![ins(b"2")], 1001).is_empty());
    let out = lane_batches.append("ks", "a", vec![ins(b"3"), ins(b"4")], 1002);
    assert_eq!(out.len(), 1);
    assert_eq!(out[0].key, "a");
    assert_eq!(out[0].records.len(), 3);
    assert_eq!(out[0].records[0].timestamp, Some(1000));
    assert_eq!(out[0].records[2].timestamp, Some(1002));
    let rest = lane_batches.flush_all();
    assert_eq!(rest.len(), 1);
    assert_eq!(rest[0].key, "b");
    assert!(lane_batches.flush_all().is_empty());
}

#[test]
fn large_first_append_writes_through() {
    let config = BatchingStoreWriterConfig::new().set_batch_flush_size_threshold(4);
    let mut lane_batches = LaneBatches::new(&config);
    let out = lane_batches.append("ks", "a", vec![ins(b"12345")], 1);
    assert_eq!(out.len(), 1);
    assert_eq!(out[0].records[0].record, b"12345".to_vec());
    let off = BatchingStoreWriterConfig::new().set_batch_flush_interval_millis(0);
    let mut direct = LaneBatches::new(&off);
    assert_eq!(direct.append("ks", "a", vec![ins(b"1")], 1).len(), 1);
}

#[test]
fn due_batches_leave_in_order() {
    let config = BatchingStoreWriterConfig::new();
    let mut lane_batches = LaneBatches::new(&config);
    lane_batches.append("ks", "a", vec![ins(b"1")], 0);
    lane_batches.append("ks", "b", vec![ins(b"2")], 500);
    assert!(lane_batches.check_write(1000).is_empty());
    let due = lane_batches.check_write(1001);
    assert_eq!(due.len(), 1);
    assert_eq!(due[0].key, "a");
    let flushed = lane_batches.flush_key("ks", "b");
    assert_eq!(flushed.len(), 1);
    assert!(lane_batches.flush_key("ks", "b").is_empty());
}
