use klstore::keypath::{KeyPath, KeyPathParser, KeyspacePath, Watermark};
use klstore::records::RecordFilter;
use klstore::{Direction, StartPosition, StoreError};

fn sample() -> KeyPath {
    KeyPath {
        first_offset: 11,
        last_offset: 20,
        min_timestamp: -5,
        max_timestamp: 1700,
        first_nonce: 3,
        next_nonce: 9,
        size: 410,
        prior_start_offset: 1,
    }
}

#[test]
fn key_path_text() {
    assert_eq!(
        sample().to_path("pre/", "ks", "k"),
        "pre/ks/k/data_o00000000000000000011-o20_t-5-t1700_n3-n9_s410_p1.bin"
    );
}

#[test]
fn key_path_parses_back() {
    let parser = KeyPathParser::new();
    let path = sample().to_path("pre/", "ks", "k");
    assert_eq!(parser.parse(&path), Some(sample()));
    let extreme = KeyPath {
        first_offset: u64::MAX,
        last_offset: u64::MAX,
        min_timestamp: i64::MIN,
        max_timestamp: i64::MAX,
        first_nonce: u128::MAX,
        next_nonce: 0,
        size: 0,
        prior_start_offset: u64::MAX,
    };
    assert_eq!(parser.parse(&extreme.to_path("", "a", "b")), Some(extreme));
}

#[test]
fn malformed_names_do_not_parse() {
    let parser = KeyPathParser::new();
    assert_eq!(parser.parse("ks/k/watermark"), None);
    assert_eq!(parser.parse("data_o1-o2_t1-t2_n1-n2_s1_p0.bin"), None);
    assert_eq!(parser.parse("ks/k/data_o1-o2_t1-t2_n1-n2_s1_p0.bin.tmp"), None);
    assert_eq!(parser.parse("ks/k/data_o1-o99999999999999999999_t1-t2_n1-n2_s1_p0.bin"), None);
    assert!(parser.parse("ks/k/data_o1-o2_t1-t2_n1-n2_s1_p0.bin").is_some());
    assert!(matches!(parser.parse_or_error("nope"), Err(StoreError::BadData(_))));
}

#[test]
fn object_names() {
    assert_eq!(Watermark::path("p/", "ks", "k"), "p/ks/k/watermark");
    assert_eq!(KeyspacePath::config_path("p/", "ks"), "p/ks_config.ini");
    assert_eq!(KeyPath::prefix_data_only("", "ks", "k"), "ks/k/data_");
    assert_eq!(KeyPath::after_offset_prefix("", "ks", "k", 0), "ks/k/data_o");
    assert_eq!(KeyPath::after_offset_prefix("", "ks", "k", 41), "ks/k/data_o00000000000000000042");
    let w = Watermark::new(1001);
    assert_eq!(KeyPath::watermark_prefix("", "ks", "k", &w), "ks/k/data_o00000000000000001001");
    assert_eq!(KeyPath::after_watermark_prefix("", "ks", "k", &w), "ks/k/data_o00000000000000001002");
    assert_eq!(w.start_from("", "ks", "k"), "ks/k/data_o00000000000000001001-");
}

#[test]
fn watermark_body_round_trips() {
    let w = Watermark::new(0x0102);
    let body = w.serialize();
    assert_eq!(body, vec![2, 1, 0, 0, 0, 0, 0, 0]);
    assert_eq!(Watermark::from(&body).unwrap().offset, 0x0102);
    assert!(matches!(Watermark::from(&vec![1, 2]), Err(StoreError::BadData(_))));
}

#[test]
fn metadata_follows_the_last_object() {
    let m = sample().to_metadata();
    assert_eq!(m.next_offset, 21);
    assert_eq!(m.next_nonce, 9);
}

#[test]
fn objects_match_filters() {
    let kp = sample();
    let fwd = RecordFilter::from(&StartPosition::Offset(20), 5, Direction::Forwards);
    assert!(kp.matches(&fwd));
    let past = RecordFilter::from(&StartPosition::Offset(21), 5, Direction::Forwards);
    assert!(!kp.matches(&past));
    let nonce = RecordFilter::from(&StartPosition::Nonce(9), 5, Direction::Forwards);
    assert!(!kp.matches(&nonce));
    let back = RecordFilter::from(&StartPosition::Offset(11), 5, Direction::Backwards);
    assert!(kp.matches(&back));
    let before = RecordFilter::from(&StartPosition::Timestamp(-6), 5, Direction::Backwards);
    assert!(!kp.matches(&before));
}
