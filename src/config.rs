//! The configuration of the object-store writer and reader, and of the ingestion bridge.
use vstd::prelude::*;
use std::collections::HashMap;
use crate::error::message;
use crate::parse::{KafkaConsumerNumberParser, KafkaConsumerUtf8Parser};

verus! {

/// The configuration of the object-store writer and reader.
#[derive(Debug, Clone)]
pub struct S3StoreConfig {
    pub object_prefix: String,
    pub bucket_name: Option<String>,
    pub endpoint: Option<String>,
    pub region: String,
    pub path_style: bool,
    pub use_default_credentials: bool,
    pub access_key: Option<String>,
    pub secret_key: Option<String>,
    pub security_token: Option<String>,
    pub session_token: Option<String>,
    pub profile: Option<String>,
    pub max_cached_keys: usize,
    pub compact_items_threshold: u64,
    pub compact_size_threshold: u64,
    pub compact_objects_threshold: u64,
    pub default_max_results: u64,
}

impl S3StoreConfig {
    /// No prefix and no bucket; region `us-east-1` with default credentials; about 100k
    /// cached keys; compaction at 1000 records, 1 MiB or 100 objects; pages of 1000.
    pub fn new() -> (r: Self)
        ensures
            r.object_prefix@ == ""@,
            r.bucket_name is None,
            r.endpoint is None,
            r.region@ == "us-east-1"@,
            !r.path_style,
            r.use_default_credentials,
            r.access_key is None,
            r.secret_key is None,
            r.security_token is None,
            r.session_token is None,
            r.profile is None,
            r.max_cached_keys == 100 * 1024,
            r.compact_items_threshold == 1000,
            r.compact_size_threshold == 1024 * 1024,
            r.compact_objects_threshold == 100,
            r.default_max_results == 1000,
    {
        Self {
            object_prefix: message(""),
            bucket_name: None,
            endpoint: None,
            region: message("us-east-1"),
            path_style: false,
            use_default_credentials: true,
            access_key: None,
            secret_key: None,
            security_token: None,
            session_token: None,
            profile: None,
            max_cached_keys: 100 * 1024,
            compact_items_threshold: 1000,
            compact_size_threshold: 1024 * 1024,
            compact_objects_threshold: 100,
            default_max_results: 1000,
        }
    }

    /// The prefix of every object name; empty puts keyspaces at the bucket's root.
    pub fn set_object_prefix(self, v: String) -> (r: Self)
        ensures
            r == (Self { object_prefix: v, ..self }),
    {
        Self { object_prefix: v, ..self }
    }

    /// The bucket's name; required.
    pub fn set_bucket_name(self, v: String) -> (r: Self)
        ensures
            r == (Self { bucket_name: Some(v), ..self }),
    {
        Self { bucket_name: Some(v), ..self }
    }

    /// An endpoint in place of the region's.
    pub fn set_endpoint(self, v: String) -> (r: Self)
        ensures
            r == (Self { endpoint: Some(v), ..self }),
    {
        Self { endpoint: Some(v), ..self }
    }

    pub fn set_region(self, v: String) -> (r: Self)
        ensures
            r == (Self { region: v, ..self }),
    {
        Self { region: v, ..self }
    }

    /// Whether the bucket is addressed in the path rather than the host name.
    pub fn set_path_style(self, v: bool) -> (r: Self)
        ensures
            r == (Self { path_style: v, ..self }),
    {
        Self { path_style: v, ..self }
    }

    /// Whether the default credentials are used in place of the given keys.
    pub fn set_use_default_credentials(self, v: bool) -> (r: Self)
        ensures
            r == (Self { use_default_credentials: v, ..self }),
    {
        Self { use_default_credentials: v, ..self }
    }

    pub fn set_access_key(self, v: String) -> (r: Self)
        ensures
            r == (Self { access_key: Some(v), ..self }),
    {
        Self { access_key: Some(v), ..self }
    }

    pub fn set_secret_key(self, v: String) -> (r: Self)
        ensures
            r == (Self { secret_key: Some(v), ..self }),
    {
        Self { secret_key: Some(v), ..self }
    }

    pub fn set_security_token(self, v: String) -> (r: Self)
        ensures
            r == (Self { security_token: Some(v), ..self }),
    {
        Self { security_token: Some(v), ..self }
    }

    pub fn set_session_token(self, v: String) -> (r: Self)
        ensures
            r == (Self { session_token: Some(v), ..self }),
    {
        Self { session_token: Some(v), ..self }
    }

    pub fn set_profile(self, v: String) -> (r: Self)
        ensures
            r == (Self { profile: Some(v), ..self }),
    {
        Self { profile: Some(v), ..self }
    }

    /// How many keys' state the writer keeps in memory.
    pub fn set_max_cached_keys(self, v: usize) -> (r: Self)
        ensures
            r == (Self { max_cached_keys: v, ..self }),
    {
        Self { max_cached_keys: v, ..self }
    }

    /// The uncompacted record count that compacts a complete batch.
    pub fn set_compact_items_threshold(self, v: u64) -> (r: Self)
        ensures
            r == (Self { compact_items_threshold: v, ..self }),
    {
        Self { compact_items_threshold: v, ..self }
    }

    /// The uncompacted object count that compacts a partial batch.
    pub fn set_compact_objects_threshold(self, v: u64) -> (r: Self)
        ensures
            r == (Self { compact_objects_threshold: v, ..self }),
    {
        Self { compact_objects_threshold: v, ..self }
    }

    /// The uncompacted size that compacts a complete batch.
    pub fn set_compact_size_threshold(self, v: u64) -> (r: Self)
        ensures
            r == (Self { compact_size_threshold: v, ..self }),
    {
        Self { compact_size_threshold: v, ..self }
    }

    /// The page size of a read that names none.
    pub fn set_default_max_results(self, v: u64) -> (r: Self)
        ensures
            r == (Self { default_max_results: v, ..self }),
    {
        Self { default_max_results: v, ..self }
    }
}

/// The configuration of the ingestion bridge.
#[derive(Clone, Debug)]
pub struct KafkaConsumerBridgeConfig {
    pub consumer_config: HashMap<String, String>,
    pub topic: Option<String>,
    pub nonce_parser: KafkaConsumerNumberParser,
    pub timestamp_parser: KafkaConsumerNumberParser,
    pub keyspace_parser: KafkaConsumerUtf8Parser,
    pub key_parser: KafkaConsumerUtf8Parser,
}

impl KafkaConsumerBridgeConfig {
    /// No consumer settings, no topic, and no extractor.
    pub fn new() -> (r: Self)
        ensures
            r.consumer_config@ == Map::<String, String>::empty(),
            r.topic is None,
            r.nonce_parser is Unset,
            r.timestamp_parser is Unset,
            r.keyspace_parser is Unset,
            r.key_parser is Unset,
    {
        Self {
            consumer_config: HashMap::new(),
            topic: None,
            nonce_parser: KafkaConsumerNumberParser::Unset,
            timestamp_parser: KafkaConsumerNumberParser::Unset,
            keyspace_parser: KafkaConsumerUtf8Parser::Unset,
            key_parser: KafkaConsumerUtf8Parser::Unset,
        }
    }

    pub fn set_consumer_config(self, v: HashMap<String, String>) -> (r: Self)
        ensures
            r == (Self { consumer_config: v, ..self }),
    {
        Self { consumer_config: v, ..self }
    }

    pub fn set_topic(self, v: String) -> (r: Self)
        ensures
            r == (Self { topic: Some(v), ..self }),
    {
        Self { topic: Some(v), ..self }
    }

    /// Adds one consumer setting, replacing an earlier value of the same name.
    pub fn add_consumer_config(self, key: String, value: String) -> (r: Self)
        ensures
            r.topic == self.topic,
            r.nonce_parser == self.nonce_parser,
            r.timestamp_parser == self.timestamp_parser,
            r.keyspace_parser == self.keyspace_parser,
            r.key_parser == self.key_parser,
            vstd::std_specs::hash::obeys_key_model::<String>()
                && vstd::std_specs::hash::builds_valid_hashers::<std::collections::hash_map::RandomState>()
                ==> r.consumer_config@ == self.consumer_config@.insert(key, value),
    {
        let mut s = self;
        s.consumer_config.insert(key, value);
        s
    }

    pub fn set_nonce_parser(self, v: KafkaConsumerNumberParser) -> (r: Self)
        ensures
            r == (Self { nonce_parser: v, ..self }),
    {
        Self { nonce_parser: v, ..self }
    }

    pub fn timestamp_parser(self, v: KafkaConsumerNumberParser) -> (r: Self)
        ensures
            r == (Self { timestamp_parser: v, ..self }),
    {
        Self { timestamp_parser: v, ..self }
    }

    pub fn set_keyspace_parser(self, v: KafkaConsumerUtf8Parser) -> (r: Self)
        ensures
            r == (Self { keyspace_parser: v, ..self }),
    {
        Self { keyspace_parser: v, ..self }
    }

    pub fn set_key_parser(self, v: KafkaConsumerUtf8Parser) -> (r: Self)
        ensures
            r == (Self { key_parser: v, ..self }),
    {
        Self { key_parser: v, ..self }
    }
}

} // verus!
