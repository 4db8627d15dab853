//! A key-partitioned append-only log store laid out over an object store.
use vstd::prelude::*;

pub mod batching;
pub mod buffer;
pub mod cache;
pub mod collect;
pub mod commit;
pub mod config;
pub mod error;
pub mod keypath;
pub mod laws;
pub mod parse;
pub mod path_laws;
pub mod records;
pub mod text;
pub mod time;
pub mod writer;

pub use error::StoreError;

verus! {

/// A Key-Log Store Writer.
/// Batching and nonce checking requires that a single key is bound to a single writer at any given time.
pub trait StoreWriter {
    /// create a new keyspace, returning an error on failure or if the keyspace already existed
    fn create_keyspace(&self, keyspace: &str) -> Result<CreatedKeyspace, StoreError>;

    /// append records to a log, creating a new key if necessary.
    /// in some implementations, this may be dispatched and executed asynchronously.
    fn append(&self, keyspace: &str, key: &str, inserts: Vec<Insertion>) -> Result<(), StoreError>;

    /// flush pending writes for a specific key
    fn flush_key(&self, keyspace: &str, key: &str) -> Result<(), StoreError>;

    /// flush all pending asynchronous operations
    fn flush_all(&self) -> Result<(), StoreError>;

    /// should be called periodically for implementation that require it.
    /// this will trigger scheduled operations, like flushing a pending batch.
    fn duty_cycle(&self) -> Result<(), StoreError>;
}

/// A Key-Log Store Reader.
/// Many readers can read from a single key concurrently.
pub trait StoreReader {
    /// read metadata for a keyspace, returning an error if the keyspace does not exist
    fn read_keyspace_metadata(&self, keyspace: &str) -> Result<KeyspaceMetadata, StoreError>;

    /// read metadata for the given key, returning None if the key does not exist
    fn read_key_metadata(&self, keyspace: &str, key: &str) -> Result<Option<KeyMetadata>, StoreError>;

    /// read the first page of a log, returning an empty log if the key does not exist.
    fn read_first_page(
        &self,
        keyspace: &str,
        key: &str,
        direction: Direction,
        start: StartPosition,
        page_size: Option<u64>,
    ) -> Result<Page, StoreError>;

    /// read the next page of a log based on the given continuation token.
    fn read_next_page(
        &self,
        keyspace: &str,
        key: &str,
        continuation: String,
        page_size: Option<u64>,
    ) -> Result<Page, StoreError>;
}

/// Direction in which a log is paged.
#[derive(Debug, Clone, Copy, PartialEq, Eq, Structural)]
pub enum Direction {
    Forwards,
    Backwards,
}

/// A keyspace that was just created.
#[derive(Debug, Clone)]
pub struct CreatedKeyspace {
    pub keyspace: String,
}

/// What is stored of a keyspace.
#[derive(Debug, Clone, Copy)]
pub struct KeyspaceMetadata {
    pub created_timestamp: i64,
}

/// What is known of a key: the offset and nonce its next record would take.
#[derive(Debug, Clone, Copy, PartialEq, Eq, Structural)]
pub struct KeyMetadata {
    pub next_offset: u64,
    pub next_nonce: u128,
}

/// A record handed to `append`.
#[derive(Debug)]
pub struct Insertion {
    pub record: Vec<u8>,
    pub nonce: Option<u128>,
    pub timestamp: Option<i64>,
}

/// Records to be appended to one key.
#[derive(Debug)]
pub struct Append {
    pub keyspace: String,
    pub key: String,
    pub records: Vec<Insertion>,
}

/// Where a read begins.
#[derive(Debug, Clone, Copy, PartialEq, Eq, Structural)]
pub enum StartPosition {
    First,
    Nonce(u128),
    Timestamp(i64),
    Offset(u64),
}

/// A stored record.
#[derive(Debug, Clone)]
pub struct Record {
    pub offset: u64,
    pub timestamp: i64,
    pub nonce: Option<u128>,
    pub value: Vec<u8>,
}

/// The mathematical content of a record.
pub struct RecordView {
    pub offset: u64,
    pub timestamp: i64,
    pub nonce: Option<u128>,
    pub value: Seq<u8>,
}

impl View for Record {
    type V = RecordView;

    open spec fn view(&self) -> RecordView {
        RecordView {
            offset: self.offset,
            timestamp: self.timestamp,
            nonce: self.nonce,
            value: self.value@,
        }
    }
}

/// The views of a sequence of records.
pub open spec fn record_views(s: Seq<Record>) -> Seq<RecordView> {
    s.map_values(|r: Record| r@)
}

/// One page of a read.
#[derive(Debug, Clone)]
pub struct Page {
    pub keyspace: String,
    pub key: String,
    pub records: Vec<Record>,
    pub continuation: Option<String>,
}

} // verus!
