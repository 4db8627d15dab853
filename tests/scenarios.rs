use klstore::cache::CachedKey;
use klstore::collect::{
    backward_object_step, forward_listing_end, forward_object_step, page_of, page_search_step,
    resume_failed, retry_page_read, settle_probe, CollectOutcome, CollectStep, ContinuationParser,
    Position, RangeStep, SearchStep,
};
use klstore::keypath::{KeyPath, KeyPathParser, Watermark};
use klstore::records::RecordFilter;
use klstore::writer::{compaction_step, merged_key_path, prepare_append, CompactionStep};
use klstore::{Direction, Insertion, KeyMetadata, Page, Record, StartPosition};

fn fresh() -> CachedKey {
    CachedKey {
        metadata: KeyMetadata { next_offset: 1, next_nonce: 0 },
        uncompacted_objects: 0,
        uncompacted_records: 0,
        uncompacted_size: 0,
        prior_start_offset: 0,
        watermark: Watermark::new(0),
    }
}

fn plain(v: &[u8], ts: Option<i64>) -> Insertion {
    Insertion { record: v.to_vec(), nonce: None, timestamp: ts }
}

/// Writes one batch after `state`; returns the object's path and body and the next state.
fn write(state: &CachedKey, batch: Vec<Insertion>) -> (String, Vec<u8>, CachedKey) {
    let p = prepare_append(state, &batch, 77, "", "ks", "k").unwrap().unwrap();
    (p.path, p.buffer, p.state)
}

/// A whole page read over the given objects, forward or backward, as the reader runs it.
fn read_page(objects: &Vec<(String, Vec<u8>)>, filter: &RecordFilter, start: Position) -> CollectOutcome {
    let parser = KeyPathParser::new();
    let mut records: Vec<Record> = Vec::new();
    let mut cur = start;
    match filter.direction {
        Direction::Forwards => {
            let start_kp = start.anchor_start_offset.saturating_sub(1);
            let mut listed_any = false;
            for (path, body) in objects {
                let kp = parser.parse(path).unwrap();
                if start_kp > 0 && kp.first_offset <= start_kp {
                    continue;
                }
                listed_any = true;
                match forward_object_step(records, &cur, &kp, Some(body.clone()), filter).unwrap() {
                    CollectStep::Done(o) => return o,
                    CollectStep::Next(r, p) => {
                        records = r;
                        cur = p;
                    }
                }
            }
            forward_listing_end(records, &cur, listed_any)
        }
        Direction::Backwards => loop {
            let after = cur.anchor_start_offset.saturating_sub(1);
            let listed = objects.iter().find(|(path, _)| {
                let kp = parser.parse(path).unwrap();
                after == 0 || kp.first_offset > after
            });
            let (kp, body) = match listed {
                Some((path, body)) => (Some(parser.parse(path).unwrap()), Some(body.clone())),
                None => (None, None),
            };
            match backward_object_step(records, &cur, &start, kp, body, filter).unwrap() {
                CollectStep::Done(o) => return o,
                CollectStep::Next(r, p) => {
                    records = r;
                    cur = p;
                }
            }
        },
    }
}

fn first_page(objects: &Vec<(String, Vec<u8>)>, direction: Direction, start: StartPosition, size: u64) -> Page {
    let parser = KeyPathParser::new();
    let filter = RecordFilter::from(&start, size, direction);
    let names: Vec<String> = objects.iter().map(|(p, _)| p.clone()).collect();
    let outcome = match page_search_step(&names, false, &filter, &parser).unwrap() {
        SearchStep::Found(Some(p)) => read_page(objects, &filter, p),
        _ => CollectOutcome::finished(Vec::new()),
    };
    page_of("ks", "k", outcome, direction)
}

fn next_page(objects: &Vec<(String, Vec<u8>)>, continuation: &str, size: u64) -> Page {
    let parser = KeyPathParser::new();
    let (direction, position) = ContinuationParser::new().parse(continuation).unwrap();
    let filter = RecordFilter::for_offset(position.next_offset, size, direction);
    let mut outcome = read_page(objects, &filter, position);
    let mut attempts: u64 = 1;
    loop {
        if resume_failed(&outcome) {
            let names: Vec<String> = objects.iter().map(|(p, _)| p.clone()).collect();
            outcome = match page_search_step(&names, false, &filter, &parser).unwrap() {
                SearchStep::Found(Some(p)) => read_page(objects, &filter, p),
                _ => CollectOutcome::finished(Vec::new()),
            };
        }
        if !retry_page_read(&outcome, attempts) {
            break;
        }
        attempts += 1;
        outcome = read_page(objects, &filter, position);
    }
    page_of("ks", "k", outcome, direction)
}

fn offsets(page: &Page) -> Vec<u64> {
    page.records.iter().map(|r| r.offset).collect()
}

#[test]
fn three_values_on_a_fresh_key() {
    let (path, body, _) = write(&fresh(), vec![plain(b"a", None), plain(b"b", None), plain(b"c", None)]);
    let objects = vec![(path, body)];
    let page = first_page(&objects, Direction::Forwards, StartPosition::First, 10);
    assert_eq!(offsets(&page), vec![1, 2, 3]);
    let values: Vec<Vec<u8>> = page.records.iter().map(|r| r.value.clone()).collect();
    assert_eq!(values, vec![b"a".to_vec(), b"b".to_vec(), b"c".to_vec()]);
    assert_eq!(page.continuation, None);
}

#[test]
fn forward_read_returns_every_batch_in_order() {
    let (p1, b1, s1) = write(&fresh(), vec![plain(b"a", Some(1)), plain(b"b", Some(2))]);
    let with_nonce = vec![Insertion { record: b"c".to_vec(), nonce: Some(4), timestamp: Some(3) }];
    let (p2, b2, s2) = write(&s1, with_nonce);
    let (p3, b3, _) = write(&s2, vec![plain(b"d", None)]);
    let objects = vec![(p1, b1), (p2, b2), (p3, b3)];
    let page = first_page(&objects, Direction::Forwards, StartPosition::First, 100);
    assert_eq!(offsets(&page), vec![1, 2, 3, 4]);
    let values: Vec<Vec<u8>> = page.records.iter().map(|r| r.value.clone()).collect();
    assert_eq!(values, vec![b"a".to_vec(), b"b".to_vec(), b"c".to_vec(), b"d".to_vec()]);
    assert_eq!(page.records[3].timestamp, 77);
    assert_eq!(page.continuation, None);
}

#[test]
fn timestamp_start_on_records_without_nonce() {
    let batch: Vec<Insertion> = [100, 200, 300, 400, 500].iter().map(|t| plain(b"v", Some(*t))).collect();
    let (path, body, _) = write(&fresh(), batch);
    let objects = vec![(path, body)];
    let page = first_page(&objects, Direction::Forwards, StartPosition::Timestamp(250), 10);
    assert_eq!(offsets(&page), vec![3, 4, 5]);
    let stamps: Vec<i64> = page.records.iter().map(|r| r.timestamp).collect();
    assert_eq!(stamps, vec![300, 400, 500]);
}

#[test]
fn continuation_after_compaction_returns_the_rest() {
    let mut state = fresh();
    let mut objects: Vec<(String, Vec<u8>)> = Vec::new();
    for i in 0..10u8 {
        let (p, b, s) = write(&state, vec![plain(&[i], Some(i as i64))]);
        objects.push((p, b));
        state = s;
    }
    let first = first_page(&objects, Direction::Forwards, StartPosition::First, 5);
    assert_eq!(offsets(&first), vec![1, 2, 3, 4, 5]);
    let c = first.continuation.clone().unwrap();
    let parser = KeyPathParser::new();
    let kps: Vec<KeyPath> = objects.iter().map(|(p, _)| parser.parse(p).unwrap()).collect();
    assert!(matches!(compaction_step(&state, &kps), CompactionStep::Merge));
    let mut body: Vec<u8> = Vec::new();
    for (_, b) in &objects {
        body.extend_from_slice(b);
    }
    let merged = merged_key_path(&kps, body.len() as u64);
    let compacted = vec![(merged.to_path("", "ks", "k"), body)];
    let next = next_page(&compacted, &c, 5);
    assert_eq!(offsets(&next), vec![6, 7, 8, 9, 10]);
    let values: Vec<u8> = next.records.iter().map(|r| r.value[0]).collect();
    assert_eq!(values, vec![5, 6, 7, 8, 9]);
}

#[test]
fn backward_pages_walk_the_whole_key() {
    let batch: Vec<Insertion> = (1..=10u8).map(|i| plain(&[i], Some(i as i64))).collect();
    let (path, body, _) = write(&fresh(), batch);
    let objects = vec![(path, body)];
    let mut page = first_page(&objects, Direction::Backwards, StartPosition::First, 3);
    let mut all = offsets(&page);
    assert_eq!(all, vec![10, 9, 8]);
    while let Some(c) = page.continuation.clone() {
        page = next_page(&objects, &c, 3);
        all.extend(offsets(&page));
    }
    assert_eq!(all, vec![10, 9, 8, 7, 6, 5, 4, 3, 2, 1]);
}

#[test]
fn backward_pages_across_objects() {
    let mut state = fresh();
    let mut objects: Vec<(String, Vec<u8>)> = Vec::new();
    for i in 0..4u8 {
        let (p, b, s) = write(&state, vec![plain(&[i], None), plain(&[i], None)]);
        objects.push((p, b));
        state = s;
    }
    let mut page = first_page(&objects, Direction::Backwards, StartPosition::First, 3);
    let mut all = offsets(&page);
    while let Some(c) = page.continuation.clone() {
        page = next_page(&objects, &c, 3);
        all.extend(offsets(&page));
    }
    assert_eq!(all, vec![8, 7, 6, 5, 4, 3, 2, 1]);
}

#[test]
fn empty_key_reads_empty_pages() {
    let objects: Vec<(String, Vec<u8>)> = Vec::new();
    for direction in [Direction::Forwards, Direction::Backwards] {
        let page = first_page(&objects, direction, StartPosition::First, 3);
        assert!(page.records.is_empty());
        assert_eq!(page.continuation, None);
    }
}

#[test]
fn lost_anchor_retries_once_then_ends() {
    let outcome = forward_listing_end(Vec::new(), &Position::new(6, 6), false);
    assert!(outcome.requires_retry);
    assert!(resume_failed(&outcome));
    assert!(retry_page_read(&outcome, 1));
    assert!(!retry_page_read(&outcome, 2));
    let page = page_of("ks", "k", outcome, Direction::Forwards);
    assert!(page.records.is_empty());
    assert_eq!(page.continuation, None);
    let done = forward_listing_end(Vec::new(), &Position::new(6, 6), true);
    assert!(!done.requires_retry);
    assert_eq!(done.position, None);
}

#[test]
fn a_probe_that_does_not_narrow_ends_the_search() {
    assert!(matches!(settle_probe(4, 9, RangeStep::Range(4, 9)), RangeStep::Found(None)));
    assert!(matches!(settle_probe(4, 9, RangeStep::Range(5, 9)), RangeStep::Range(5, 9)));
}

#[test]
fn compaction_of_one_object_moves_the_watermark() {
    let (path, _, state) = write(&fresh(), vec![plain(b"a", None)]);
    let kp = KeyPathParser::new().parse(&path).unwrap();
    match compaction_step(&state, &vec![kp]) {
        CompactionStep::Single(s) => {
            assert_eq!(s.watermark.offset, 1);
            assert_eq!(s.uncompacted_records, 0);
        }
        _ => panic!("expected a single object"),
    }
    assert!(matches!(compaction_step(&state, &Vec::new()), CompactionStep::Empty));
}
