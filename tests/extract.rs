use klstore::config::{KafkaConsumerBridgeConfig, S3StoreConfig};
use klstore::parse::{
    parse_be_as_i64, parse_be_as_u128, parse_i64_opt, parse_le_as_i64, parse_le_as_u128,
    parse_opt_utf8, parse_str_as_i64, parse_str_as_u128, parse_u128_opt, parse_utf8,
    parse_utf8_as_u128, parse_utf8_opt, parse_utf8_req, KafkaConsumerNumberParser,
    KafkaConsumerUtf8Parser, MessageFields,
};
use klstore::parse::{create_number_parser, create_utf8_parser};
use klstore::StoreError;

fn message() -> MessageFields {
    MessageFields {
        key: Some(b"42".to_vec()),
        headers: Some(vec![
            ("n".to_string(), vec![1, 0]),
            ("ks".to_string(), b"space".to_vec()),
            ("n".to_string(), vec![9]),
        ]),
        offset: 17,
        partition: 3,
    }
}

#[test]
fn numbers_from_bytes() {
    assert_eq!(parse_le_as_u128(&[1, 2]).unwrap(), Some(0x0201));
    assert_eq!(parse_be_as_u128(&[1, 2]).unwrap(), Some(0x0102));
    assert_eq!(parse_le_as_u128(&[7]).unwrap(), Some(7));
    assert!(matches!(parse_le_as_u128(&[1, 2, 3]), Err(StoreError::BadData(_))));
    assert_eq!(parse_le_as_i64(&[0xff]).unwrap(), Some(-1));
    assert_eq!(parse_be_as_i64(&[0xff, 0xfe]).unwrap(), Some(-2));
    assert!(parse_be_as_i64(&[0; 16]).is_err());
}

#[test]
fn numbers_from_text() {
    assert_eq!(parse_str_as_u128("123").unwrap(), Some(123));
    assert_eq!(parse_str_as_u128("+5").unwrap(), Some(5));
    assert!(parse_str_as_u128("").is_err());
    assert!(parse_str_as_u128("-1").is_err());
    assert!(parse_str_as_u128("12a").is_err());
    assert!(parse_str_as_u128("340282366920938463463374607431768211456").is_err());
    assert_eq!(parse_str_as_u128("340282366920938463463374607431768211455").unwrap(), Some(u128::MAX));
    assert_eq!(parse_str_as_i64("-9223372036854775808").unwrap(), Some(i64::MIN));
    assert!(parse_str_as_i64("9223372036854775808").is_err());
    assert_eq!(parse_utf8_as_u128(b"77").unwrap(), Some(77));
}

#[test]
fn utf8_text() {
    assert_eq!(parse_utf8(b"abc").unwrap(), "abc");
    assert!(matches!(parse_utf8(&[0xff, 0xfe]), Err(StoreError::BadData(_))));
    assert_eq!(parse_opt_utf8(None).unwrap(), None);
    assert_eq!(parse_opt_utf8(Some("é".as_bytes())).unwrap(), Some("é".to_string()));
}

#[test]
fn extractors_read_the_message() {
    let m = message();
    let first = KafkaConsumerNumberParser::RecordHeaderLittleEndian("n".to_string());
    assert_eq!(parse_u128_opt(&first, &m).unwrap(), Some(1));
    let key = KafkaConsumerNumberParser::RecordKeyUtf8;
    assert_eq!(parse_u128_opt(&key, &m).unwrap(), Some(42));
    assert_eq!(parse_i64_opt(&KafkaConsumerNumberParser::RecordOffset, &m).unwrap(), Some(17));
    assert_eq!(parse_u128_opt(&KafkaConsumerNumberParser::RecordPartition, &m).unwrap(), Some(3));
    let absent = KafkaConsumerNumberParser::RecordHeaderUtf8("zz".to_string());
    assert_eq!(parse_u128_opt(&absent, &m).unwrap(), None);
    assert_eq!(parse_i64_opt(&KafkaConsumerNumberParser::Unset, &m).unwrap(), None);
    let ks = KafkaConsumerUtf8Parser::RecordHeader("ks".to_string());
    assert_eq!(parse_utf8_opt(&ks, &m).unwrap(), Some("space".to_string()));
    assert_eq!(parse_utf8_req(&KafkaConsumerUtf8Parser::RecordPartition, &m).unwrap(), "3");
    assert_eq!(parse_utf8_req(&KafkaConsumerUtf8Parser::Static("s".to_string()), &m).unwrap(), "s");
    assert!(matches!(parse_utf8_req(&KafkaConsumerUtf8Parser::Unset, &m), Err(StoreError::BadData(_))));
    let mut negative = message();
    negative.offset = -1;
    assert_eq!(parse_u128_opt(&KafkaConsumerNumberParser::RecordOffset, &negative).unwrap(), Some(u128::MAX));
}

#[test]
fn store_config_defaults_and_setters() {
    let c = S3StoreConfig::new();
    assert_eq!(c.object_prefix, "");
    assert_eq!(c.region, "us-east-1");
    assert!(c.use_default_credentials);
    assert_eq!(c.max_cached_keys, 100 * 1024);
    assert_eq!((c.compact_items_threshold, c.compact_size_threshold, c.compact_objects_threshold), (1000, 1 << 20, 100));
    assert_eq!(c.default_max_results, 1000);
    let c = c
        .set_object_prefix("p/".to_string())
        .set_bucket_name("b".to_string())
        .set_endpoint("http://e".to_string())
        .set_region("r".to_string())
        .set_path_style(true)
        .set_use_default_credentials(false)
        .set_access_key("a".to_string())
        .set_secret_key("s".to_string())
        .set_security_token("t".to_string())
        .set_session_token("u".to_string())
        .set_profile("p".to_string())
        .set_max_cached_keys(5)
        .set_compact_items_threshold(6)
        .set_compact_objects_threshold(7)
        .set_compact_size_threshold(8)
        .set_default_max_results(9);
    assert_eq!(c.object_prefix, "p/");
    assert_eq!(c.endpoint, Some("http://e".to_string()));
    assert_eq!(c.bucket_name, Some("b".to_string()));
    assert!(c.path_style && !c.use_default_credentials);
    assert_eq!((c.max_cached_keys, c.compact_items_threshold, c.compact_objects_threshold, c.compact_size_threshold, c.default_max_results), (5, 6, 7, 8, 9));
}

#[test]
fn bridge_config_setters() {
    let c = KafkaConsumerBridgeConfig::new()
        .set_topic("t".to_string())
        .add_consumer_config("group.id".to_string(), "g".to_string())
        .set_nonce_parser(KafkaConsumerNumberParser::RecordOffset)
        .timestamp_parser(KafkaConsumerNumberParser::RecordKeyBigEndian)
        .set_keyspace_parser(KafkaConsumerUtf8Parser::Static("ks".to_string()))
        .set_key_parser(KafkaConsumerUtf8Parser::RecordKey);
    assert_eq!(c.topic, Some("t".to_string()));
    assert_eq!(c.consumer_config.get("group.id"), Some(&"g".to_string()));
    assert!(matches!(c.nonce_parser, KafkaConsumerNumberParser::RecordOffset));
    assert!(matches!(c.key_parser, KafkaConsumerUtf8Parser::RecordKey));
}

#[test]
fn extractor_configuration_values() {
    assert!(matches!(create_number_parser(None).unwrap(), KafkaConsumerNumberParser::Unset));
    assert!(matches!(create_number_parser(Some("None")).unwrap(), KafkaConsumerNumberParser::Unset));
    assert!(matches!(create_number_parser(Some("RecordOffset")).unwrap(), KafkaConsumerNumberParser::RecordOffset));
    match create_number_parser(Some("RecordHeaderBigEndian(nonce)")).unwrap() {
        KafkaConsumerNumberParser::RecordHeaderBigEndian(h) => assert_eq!(h, "nonce"),
        _ => panic!("expected a header extractor"),
    }
    match create_number_parser(Some("RecordHeaderUtf8(a()")).unwrap() {
        KafkaConsumerNumberParser::RecordHeaderUtf8(h) => assert_eq!(h, "a("),
        _ => panic!("expected a header extractor"),
    }
    assert!(matches!(create_number_parser(Some("RecordHeaderUtf8(a(b))")), Err(StoreError::BadConfiguration(_))));
    assert!(matches!(create_number_parser(Some("RecordHeaderUtf8()")), Err(StoreError::BadConfiguration(_))));
    assert!(matches!(create_number_parser(Some("Bogus(x)")), Err(StoreError::BadConfiguration(_))));
    assert!(matches!(create_number_parser(Some("RecordKey")), Err(StoreError::BadConfiguration(_))));
    match create_utf8_parser(Some("Static(my-space)")).unwrap() {
        KafkaConsumerUtf8Parser::Static(s) => assert_eq!(s, "my-space"),
        _ => panic!("expected a static value"),
    }
    assert!(matches!(create_utf8_parser(Some("RecordKey")).unwrap(), KafkaConsumerUtf8Parser::RecordKey));
    assert!(matches!(create_utf8_parser(None).unwrap(), KafkaConsumerUtf8Parser::Unset));
    assert!(matches!(create_utf8_parser(Some("Static(a\nb)")), Err(StoreError::BadConfiguration(_))));
}

#[test]
fn commit_stats_count_by_partition() {
    use_commit_stats();
}

fn use_commit_stats() {
    let mut c = klstore::commit::CommitStats::new();
    assert!(!c.needs_commit());
    c.increment(2, Some(10));
    c.increment(2, None);
    c.increment(5, Some(7));
    assert_eq!(c.record_count_since_commit, 3);
    let second = c.partition_stats.get(&2).unwrap();
    assert_eq!((second.record_count, second.last_timestamp), (2, Some(10)));
    assert!(c.needs_commit());
    c.reset();
    assert!(c.partition_stats.is_empty());
    assert_eq!(c.record_count_since_commit, 3);
    let mut p = klstore::commit::PartitionStats::first(None);
    p.increment(Some(4));
    assert_eq!((p.record_count, p.last_timestamp), (2, Some(4)));
}
