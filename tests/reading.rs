use klstore::collect::{
    after_last_path, backward_object_step, find_start_from_in_page, forward_object_step, midpoint,
    needs_retry, page_of, page_search_step, probe_step, CollectOutcome, CollectStep,
    ContinuationParser, Position, RangeStep, SearchStep,
};
use klstore::keypath::{KeyPath, KeyPathParser};
use klstore::records::{serialize_insertion_at, RecordFilter};
use klstore::{Direction, Insertion, Record, StartPosition, StoreError};

fn kp(first: u64, last: u64, prior: u64) -> KeyPath {
    KeyPath {
        first_offset: first,
        last_offset: last,
        min_timestamp: first as i64,
        max_timestamp: last as i64,
        first_nonce: 0,
        next_nonce: 0,
        size: 0,
        prior_start_offset: prior,
    }
}

fn body(first: u64, count: u64) -> Vec<u8> {
    let batch: Vec<Insertion> = (0..count)
        .map(|i| Insertion { record: vec![i as u8], nonce: None, timestamp: Some((first + i) as i64) })
        .collect();
    let refs: Vec<&Insertion> = batch.iter().collect();
    serialize_insertion_at(&refs, first, 0).buffer
}

fn offsets(records: &Vec<Record>) -> Vec<u64> {
    records.iter().map(|r| r.offset).collect()
}

#[test]
fn missing_key_reads_an_empty_page() {
    let parser = KeyPathParser::new();
    let filter = RecordFilter::from(&StartPosition::First, 10, Direction::Forwards);
    let step = page_search_step(&Vec::new(), false, &filter, &parser).unwrap();
    assert!(matches!(step, SearchStep::Found(None)));
    let page = page_of("ks", "k", CollectOutcome::finished(Vec::new()), Direction::Forwards);
    assert!(page.records.is_empty());
    assert_eq!(page.continuation, None);
    assert_eq!(page.keyspace, "ks");
}

#[test]
fn backward_from_first_on_empty_key_is_empty() {
    let parser = KeyPathParser::new();
    let filter = RecordFilter::from(&StartPosition::First, 3, Direction::Backwards);
    let step = page_search_step(&Vec::new(), true, &filter, &parser).unwrap();
    assert!(matches!(step, SearchStep::Found(None)));
}

#[test]
fn continuation_text_round_trips() {
    let o = CollectOutcome::progress(Vec::new(), &Position::new(6, 1), 1, Direction::Forwards);
    let text = o.continuation(Direction::Forwards).unwrap();
    assert_eq!(text, "f:6:1");
    let parser = ContinuationParser::new();
    let (d, p) = parser.parse(&text).unwrap();
    assert_eq!(d, Direction::Forwards);
    assert_eq!(p, Position::new(6, 1));
    assert_eq!(parser.parse("b:0:18446744073709551615").unwrap().1, Position::new(0, u64::MAX));
    assert!(matches!(parser.parse("x:1:2"), Err(StoreError::InvalidContinuation(_))));
    assert!(matches!(parser.parse("f:1"), Err(StoreError::InvalidContinuation(_))));
    assert!(matches!(parser.parse("f:1:18446744073709551616"), Err(StoreError::InvalidContinuation(_))));
}

#[test]
fn progress_points_past_the_last_record() {
    let recs = vec![Record { offset: 8, timestamp: 0, nonce: None, value: vec![] }];
    let f = CollectOutcome::progress(recs, &Position::new(1, 1), 3, Direction::Forwards);
    assert_eq!(f.position, Some(Position::new(9, 3)));
    let recs = vec![Record { offset: 8, timestamp: 0, nonce: None, value: vec![] }];
    let b = CollectOutcome::missing(recs, &Position::new(1, 1), 3, Direction::Backwards);
    assert_eq!(b.position, Some(Position::new(7, 3)));
    assert!(b.requires_retry);
}

#[test]
fn start_is_found_in_a_page() {
    let parser = KeyPathParser::new();
    let page: Vec<String> = vec![kp(1, 5, 0).to_path("", "ks", "k"), kp(6, 10, 1).to_path("", "ks", "k")];
    let fwd = RecordFilter::from(&StartPosition::Offset(7), 10, Direction::Forwards);
    assert_eq!(find_start_from_in_page(&page, &fwd, &parser), Some(Position::new(6, 6)));
    let back = RecordFilter::from(&StartPosition::Offset(3), 10, Direction::Backwards);
    assert_eq!(find_start_from_in_page(&page, &back, &parser), Some(Position::new(5, 1)));
    let none = RecordFilter::from(&StartPosition::Offset(11), 10, Direction::Forwards);
    assert_eq!(find_start_from_in_page(&page, &none, &parser), None);
}

#[test]
fn search_decisions_on_later_pages() {
    let parser = KeyPathParser::new();
    let page: Vec<String> = vec![kp(1, 5, 0).to_path("", "ks", "k"), kp(6, 10, 1).to_path("", "ks", "k")];
    let fwd = RecordFilter::from(&StartPosition::Offset(50), 10, Direction::Forwards);
    assert!(matches!(page_search_step(&page, true, &fwd, &parser).unwrap(), SearchStep::Continue));
    let last = Some(kp(90, 100, 80).to_path("", "ks", "k"));
    match after_last_path(&last, &page, &fwd, &parser).unwrap() {
        RangeStep::Range(lo, hi) => assert_eq!((lo, hi), (6, 100)),
        _ => panic!("expected a range"),
    }
    assert_eq!(midpoint(6, 100), 53);
    assert_eq!(midpoint(u64::MAX, u64::MAX), u64::MAX);
    let probe: Vec<String> = vec![kp(20, 30, 10).to_path("", "ks", "k")];
    match probe_step(6, 100, 53, &probe, true, &fwd, &parser).unwrap() {
        RangeStep::Range(lo, hi) => assert_eq!((lo, hi), (30, 100)),
        _ => panic!("expected a range"),
    }
    match probe_step(6, 100, 53, &Vec::new(), true, &fwd, &parser).unwrap() {
        RangeStep::Range(lo, hi) => assert_eq!((lo, hi), (6, 53)),
        _ => panic!("expected a range"),
    }
    let back = RecordFilter::from(&StartPosition::Offset(95), 10, Direction::Backwards);
    match after_last_path(&last, &page, &back, &parser).unwrap() {
        RangeStep::Found(p) => assert_eq!(p, Some(Position::new(95, 90))),
        _ => panic!("expected a start"),
    }
}

#[test]
fn forward_read_moves_across_objects() {
    let filter = RecordFilter::from(&StartPosition::First, 4, Direction::Forwards);
    let cur = Position::new(1, 1);
    let step = forward_object_step(Vec::new(), &cur, &kp(1, 3, 0), Some(body(1, 3)), &filter).unwrap();
    let (records, next) = match step {
        CollectStep::Next(r, p) => (r, p),
        _ => panic!("expected to go on"),
    };
    assert_eq!(offsets(&records), vec![1, 2, 3]);
    assert_eq!(next, Position::new(4, 4));
    let step = forward_object_step(records, &next, &kp(4, 6, 1), Some(body(4, 3)), &filter).unwrap();
    match step {
        CollectStep::Done(o) => {
            assert_eq!(offsets(&o.records), vec![1, 2, 3, 4]);
            assert_eq!(o.position, Some(Position::new(5, 4)));
            assert!(!o.requires_retry);
            assert_eq!(o.continuation(Direction::Forwards).unwrap(), "f:5:4");
        },
        _ => panic!("expected a full page"),
    }
}

#[test]
fn compacted_away_object_asks_for_retry() {
    let filter = RecordFilter::for_offset(6, 5, Direction::Forwards);
    let cur = Position::new(6, 6);
    let step = forward_object_step(Vec::new(), &cur, &kp(11, 12, 1), Some(body(11, 2)), &filter).unwrap();
    match step {
        CollectStep::Done(o) => {
            assert!(o.requires_retry);
            assert!(needs_retry(&o));
            let page = page_of("ks", "k", o, Direction::Forwards);
            assert_eq!(page.continuation, None);
            assert!(page.records.is_empty());
        },
        _ => panic!("expected a retry"),
    }
    let gone = forward_object_step(Vec::new(), &cur, &kp(6, 10, 1), None, &filter).unwrap();
    assert!(matches!(gone, CollectStep::Done(o) if o.requires_retry));
}

#[test]
fn continuation_survives_compaction() {
    let filter = RecordFilter::for_offset(6, 5, Direction::Forwards);
    let cur = Position::new(6, 1);
    let step = forward_object_step(Vec::new(), &cur, &kp(1, 10, 0), Some(body(1, 10)), &filter).unwrap();
    match step {
        CollectStep::Next(records, _) => assert_eq!(offsets(&records), vec![6, 7, 8, 9, 10]),
        CollectStep::Done(o) => assert_eq!(offsets(&o.records), vec![6, 7, 8, 9, 10]),
    }
}

#[test]
fn last_offset_ends_iteration() {
    let filter = RecordFilter::from(&StartPosition::First, 10, Direction::Forwards);
    let cur = Position::new(u64::MAX - 1, u64::MAX - 1);
    let step = forward_object_step(
        Vec::new(),
        &cur,
        &kp(u64::MAX - 1, u64::MAX, 0),
        Some(body(u64::MAX - 1, 1)),
        &filter,
    )
    .unwrap();
    match step {
        CollectStep::Done(o) => {
            assert_eq!(offsets(&o.records), vec![u64::MAX - 1]);
            assert_eq!(o.position, None);
        },
        _ => panic!("expected the end"),
    }
}

#[test]
fn backward_read_follows_back_links() {
    let filter = RecordFilter::from(&StartPosition::First, 3, Direction::Backwards);
    let start = Position::new(u64::MAX, 6);
    let step = backward_object_step(Vec::new(), &Position::new(10, 6), &start, Some(kp(6, 10, 1)), Some(body(6, 5)), &filter).unwrap();
    match step {
        CollectStep::Done(o) => {
            assert_eq!(offsets(&o.records), vec![10, 9, 8]);
            assert_eq!(o.continuation(Direction::Backwards).unwrap(), "b:7:6");
        },
        _ => panic!("expected a full page"),
    }
    let filter = RecordFilter::for_offset(5, 10, Direction::Backwards);
    let step = backward_object_step(Vec::new(), &Position::new(5, 1), &start, Some(kp(1, 5, 0)), Some(body(1, 5)), &filter).unwrap();
    match step {
        CollectStep::Done(o) => {
            assert_eq!(offsets(&o.records), vec![5, 4, 3, 2, 1]);
            assert_eq!(o.position, None);
        },
        _ => panic!("expected the end"),
    }
    let lost = backward_object_step(Vec::new(), &Position::new(5, 1), &start, None, None, &filter).unwrap();
    match lost {
        CollectStep::Done(o) => {
            assert!(o.requires_retry);
            assert_eq!(o.position, Some(start));
        },
        _ => panic!("expected a retry"),
    }
}
