//! The decisions of the writer: what an append writes and how the key's state moves,
//! when compaction runs and what it leaves behind, and the state of a key read back from
//! its listing.
use vstd::prelude::*;
use crate::cache::CachedKey;
use crate::error::{message, StoreError};
use crate::keypath::{key_dir, key_path_name, parse_path, KeyPath, KeyPathParser, Watermark};
use crate::records::{
    deref_all, first_accepted, frames_fit, max_stamp, min_stamp, nonce_after, nonce_filter,
    nonce_kept, nonces_legal, serialize_insertion_at, serialized,
};
use crate::{Insertion, KeyMetadata};

verus! {

broadcast use vstd::seq_lib::group_seq_properties;

/// The object an append writes and the key's state once it is written.
pub struct PreparedAppend {
    pub key_path: KeyPath,
    pub path: String,
    pub buffer: Vec<u8>,
    pub state: CachedKey,
}

/// Whether some insertion's value is too long for a frame.
pub open spec fn some_too_long(s: Seq<Insertion>) -> bool {
    !frames_fit(s)
}

/// The key path of a batch written after `kinfo`.
pub open spec fn batch_key_path(kinfo: CachedKey, records: Seq<Insertion>, now: i64) -> KeyPath {
    let next = kinfo.metadata.next_nonce;
    let kept = nonce_kept(records, next);
    let first = kinfo.metadata.next_offset;
    KeyPath {
        first_offset: first,
        last_offset: (first + kept.len() - 1) as u64,
        min_timestamp: min_stamp(kept, now),
        max_timestamp: max_stamp(kept, now),
        first_nonce: match first_accepted(records, next) {
            Some(n) => n,
            None => next,
        },
        next_nonce: nonce_after(records, next),
        size: serialized(kept, first as int, now).len() as u64,
        prior_start_offset: kinfo.prior_start_offset,
    }
}

/// `a + b`, or `u64::MAX` where the sum does not fit.
pub open spec fn sat_add(a: u64, b: int) -> u64 {
    if a + b > u64::MAX {
        u64::MAX
    } else {
        (a + b) as u64
    }
}

/// The key's state once a batch is written after `kinfo`: offsets and nonces move past
/// the batch, its records, size and object join the uncompacted counters (saturating),
/// and it becomes the object that the next one links back to.
pub open spec fn state_after_append(kinfo: CachedKey, records: Seq<Insertion>, now: i64) -> CachedKey {
    let kp = batch_key_path(kinfo, records, now);
    let kept = nonce_kept(records, kinfo.metadata.next_nonce);
    CachedKey {
        metadata: KeyMetadata {
            next_offset: (kinfo.metadata.next_offset + kept.len()) as u64,
            next_nonce: kp.next_nonce,
        },
        uncompacted_objects: sat_add(kinfo.uncompacted_objects, 1),
        uncompacted_records: sat_add(kinfo.uncompacted_records, kept.len() as int),
        uncompacted_size: sat_add(kinfo.uncompacted_size, kp.size as int),
        prior_start_offset: kinfo.metadata.next_offset,
        watermark: kinfo.watermark,
    }
}

/// Whether the batch kept of `records` would run past the last offset.
pub open spec fn exhausts_offsets(kinfo: CachedKey, records: Seq<Insertion>) -> bool {
    kinfo.metadata.next_offset + nonce_kept(records, kinfo.metadata.next_nonce).len() > u64::MAX
}

/// The work of one append to a key whose state is `kinfo`, stamping insertions without
/// a timestamp with `now`: the nonce filter, then the serialized batch, its object path
/// and the key's next state. `None` where the nonce filter keeps nothing.
pub fn prepare_append(
    kinfo: &CachedKey,
    records: &Vec<Insertion>,
    now: i64,
    root_prefix: &str,
    keyspace: &str,
    key: &str,
) -> (r: Result<Option<PreparedAppend>, StoreError>)
    requires
        1 <= kinfo.metadata.next_offset,
    ensures
        !nonces_legal(records@) ==> r matches Err(StoreError::BadData(_)),
        nonces_legal(records@) && nonce_kept(records@, kinfo.metadata.next_nonce).len() == 0
            ==> r matches Ok(None),
        nonces_legal(records@) && nonce_kept(records@, kinfo.metadata.next_nonce).len() > 0 && (
        some_too_long(nonce_kept(records@, kinfo.metadata.next_nonce)) || exhausts_offsets(
            *kinfo,
            records@,
        )) ==> r matches Err(StoreError::BadData(_)),
        nonces_legal(records@) && nonce_kept(records@, kinfo.metadata.next_nonce).len() > 0
            && !some_too_long(nonce_kept(records@, kinfo.metadata.next_nonce)) && !exhausts_offsets(
            *kinfo,
            records@,
        ) ==> (r matches Ok(Some(p)) && p.key_path == batch_key_path(*kinfo, records@, now)
            && p.buffer@ == serialized(
            nonce_kept(records@, kinfo.metadata.next_nonce),
            kinfo.metadata.next_offset as int,
            now,
        ) && p.path@ == key_dir(root_prefix@, keyspace@, key@) + key_path_name(p.key_path)
            && p.state == state_after_append(*kinfo, records@, now)),
{
    let mut i: usize = 0;
    while i < records.len()
        invariant
            i <= records@.len(),
            forall|j: int| 0 <= j < i ==> #[trigger] records@[j].nonce != Some(u128::MAX),
        decreases records@.len() - i,
    {
        if records[i].nonce == Some(u128::MAX) {
            return Err(StoreError::BadData(message("nonce out of range")));
        }
        i = i + 1;
    }
    let filtered = nonce_filter(records, kinfo.metadata.next_nonce);
    let ghost kept = nonce_kept(records@, kinfo.metadata.next_nonce);
    let n = filtered.records.len();
    if n == 0 {
        return Ok(None);
    }
    let mut j: usize = 0;
    while j < n
        invariant
            n == filtered.records@.len(),
            n > 0,
            nonces_legal(records@),
            kept == nonce_kept(records@, kinfo.metadata.next_nonce),
            deref_all(filtered.records@) == kept,
            j <= n,
            forall|k: int| 0 <= k < j ==> #[trigger] kept[k].record@.len() + 36 <= u32::MAX,
        decreases n - j,
    {
        let item: &Insertion = filtered.records[j];
        assert(*item == kept[j as int]);
        if item.record.len() > 4294967259 {
            assert(!frames_fit(kept));
            return Err(StoreError::BadData(message("record too long")));
        }
        j = j + 1;
    }
    if kinfo.metadata.next_offset > u64::MAX - n as u64 {
        return Err(StoreError::BadData(message("offset space exhausted")));
    }
    let ser = serialize_insertion_at(&filtered.records, kinfo.metadata.next_offset, now);
    let key_path = KeyPath {
        first_offset: ser.first_insert_offset,
        last_offset: ser.last_insert_offset,
        min_timestamp: ser.min_timestamp,
        max_timestamp: ser.max_timestamp,
        first_nonce: match filtered.first_nonce {
            None => filtered.first_potential_nonce,
            Some(v) => v,
        },
        next_nonce: filtered.next_nonce,
        size: ser.buffer.len() as u64,
        prior_start_offset: kinfo.prior_start_offset,
    };
    let path = key_path.to_path(root_prefix, keyspace, key);
    let state = CachedKey {
        metadata: KeyMetadata { next_offset: ser.next_offset, next_nonce: filtered.next_nonce },
        uncompacted_objects: kinfo.uncompacted_objects.saturating_add(1),
        uncompacted_records: kinfo.uncompacted_records.saturating_add(n as u64),
        uncompacted_size: kinfo.uncompacted_size.saturating_add(ser.buffer.len() as u64),
        prior_start_offset: ser.first_insert_offset,
        watermark: kinfo.watermark,
    };
    Ok(Some(PreparedAppend { key_path, path, buffer: ser.buffer, state }))
}

/// Whether any uncompacted counter has reached its threshold.
pub open spec fn compaction_due(k: CachedKey, records: u64, size: u64, objects: u64) -> bool {
    !(k.uncompacted_records < records && k.uncompacted_objects < objects && k.uncompacted_size
        < size)
}

/// Whether compaction moves the watermark: the records or the size reached the threshold.
pub open spec fn advances_watermark(k: CachedKey, records: u64, size: u64) -> bool {
    k.uncompacted_records >= records || k.uncompacted_size >= size
}

/// `None` where no compaction is due; else whether it advances the watermark.
pub fn plan_compaction(
    key_data: &CachedKey,
    compact_records_threshold: u64,
    compact_size_threshold: u64,
    compact_objects_threshold: u64,
) -> (r: Option<bool>)
    ensures
        r is None <==> !compaction_due(
            *key_data,
            compact_records_threshold,
            compact_size_threshold,
            compact_objects_threshold,
        ),
        r matches Some(advance) ==> advance == advances_watermark(
            *key_data,
            compact_records_threshold,
            compact_size_threshold,
        ),
{
    if key_data.uncompacted_records < compact_records_threshold && key_data.uncompacted_objects
        < compact_objects_threshold && key_data.uncompacted_size < compact_size_threshold {
        return None;
    }
    Some(
        key_data.uncompacted_records >= compact_records_threshold || key_data.uncompacted_size
            >= compact_size_threshold,
    )
}

/// The smallest `min_timestamp` of the objects.
pub open spec fn min_ts_of(s: Seq<KeyPath>) -> i64
    decreases s.len(),
{
    if s.len() == 0 {
        i64::MAX
    } else {
        let m = min_ts_of(s.drop_last());
        if s.last().min_timestamp < m {
            s.last().min_timestamp
        } else {
            m
        }
    }
}

/// The largest `max_timestamp` of the objects.
pub open spec fn max_ts_of(s: Seq<KeyPath>) -> i64
    decreases s.len(),
{
    if s.len() == 0 {
        i64::MIN
    } else {
        let m = max_ts_of(s.drop_last());
        if s.last().max_timestamp > m {
            s.last().max_timestamp
        } else {
            m
        }
    }
}

/// The key path of the object that merges `objects`, listed in ascending offset order,
/// whose concatenated bodies are `size` bytes long.
pub open spec fn merged_spec(objects: Seq<KeyPath>, size: u64) -> KeyPath {
    KeyPath {
        first_offset: objects[0].first_offset,
        last_offset: objects.last().last_offset,
        min_timestamp: min_ts_of(objects),
        max_timestamp: max_ts_of(objects),
        first_nonce: objects[0].first_nonce,
        next_nonce: objects.last().next_nonce,
        size,
        prior_start_offset: objects[0].prior_start_offset,
    }
}

/// The key path of the object that merges `objects`: the range from the first object's
/// first offset to the last object's last offset, the envelope of their timestamps and
/// nonces, and the first object's back-link.
pub fn merged_key_path(objects: &Vec<KeyPath>, size: u64) -> (r: KeyPath)
    requires
        objects@.len() > 0,
    ensures
        r == merged_spec(objects@, size),
{
    let mut min_ts: i64 = i64::MAX;
    let mut max_ts: i64 = i64::MIN;
    let mut i: usize = 0;
    assert(objects@.subrange(0, 0) =~= Seq::<KeyPath>::empty());
    while i < objects.len()
        invariant
            i <= objects@.len(),
            min_ts == min_ts_of(objects@.subrange(0, i as int)),
            max_ts == max_ts_of(objects@.subrange(0, i as int)),
        decreases objects@.len() - i,
    {
        assert(objects@.subrange(0, i + 1).drop_last() =~= objects@.subrange(0, i as int));
        if objects[i].min_timestamp < min_ts {
            min_ts = objects[i].min_timestamp;
        }
        if objects[i].max_timestamp > max_ts {
            max_ts = objects[i].max_timestamp;
        }
        i = i + 1;
    }
    assert(objects@.subrange(0, i as int) =~= objects@);
    let first = &objects[0];
    let last = &objects[objects.len() - 1];
    KeyPath {
        first_offset: first.first_offset,
        last_offset: last.last_offset,
        min_timestamp: min_ts,
        max_timestamp: max_ts,
        first_nonce: first.first_nonce,
        next_nonce: last.next_nonce,
        size,
        prior_start_offset: first.prior_start_offset,
    }
}

/// The key's state once compaction found a single object after the watermark: the
/// watermark moves to it and the counters restart.
pub fn single_object_state(key_data: &CachedKey, only: &KeyPath) -> (r: CachedKey)
    ensures
        r == (CachedKey {
            metadata: key_data.metadata,
            uncompacted_objects: 0,
            uncompacted_records: 0,
            uncompacted_size: 0,
            prior_start_offset: key_data.prior_start_offset,
            watermark: Watermark { offset: only.first_offset },
        }),
{
    CachedKey {
        metadata: key_data.metadata,
        uncompacted_records: 0,
        uncompacted_objects: 0,
        uncompacted_size: 0,
        prior_start_offset: key_data.prior_start_offset,
        watermark: Watermark::new(only.first_offset),
    }
}

/// The key's state once the objects after the watermark were merged into one that
/// starts at `first`: where the watermark advances it moves there and the counters
/// restart; else only the object count restarts, at one.
pub fn merged_state(key_data: &CachedKey, first: &KeyPath, advance_watermark: bool) -> (r: CachedKey)
    ensures
        advance_watermark ==> r == (CachedKey {
            metadata: key_data.metadata,
            uncompacted_objects: 0,
            uncompacted_records: 0,
            uncompacted_size: 0,
            prior_start_offset: first.first_offset,
            watermark: Watermark { offset: first.first_offset },
        }),
        !advance_watermark ==> r == (CachedKey {
            metadata: key_data.metadata,
            uncompacted_objects: 1,
            uncompacted_records: key_data.uncompacted_records,
            uncompacted_size: key_data.uncompacted_size,
            prior_start_offset: first.first_offset,
            watermark: key_data.watermark,
        }),
{
    if advance_watermark {
        CachedKey {
            metadata: key_data.metadata,
            uncompacted_records: 0,
            uncompacted_objects: 0,
            uncompacted_size: 0,
            prior_start_offset: first.first_offset,
            watermark: Watermark::new(first.first_offset),
        }
    } else {
        CachedKey {
            metadata: key_data.metadata,
            uncompacted_records: key_data.uncompacted_records,
            uncompacted_objects: 1,
            uncompacted_size: key_data.uncompacted_size,
            prior_start_offset: first.first_offset,
            watermark: key_data.watermark,
        }
    }
}

/// The state of a key that has no object.
pub open spec fn fresh_key_state() -> CachedKey {
    CachedKey {
        metadata: KeyMetadata { next_offset: 1, next_nonce: 0 },
        uncompacted_objects: 0,
        uncompacted_records: 0,
        uncompacted_size: 0,
        prior_start_offset: 0,
        watermark: Watermark { offset: 0 },
    }
}

/// The number of records an object holds.
pub open spec fn record_count(kp: KeyPath) -> int {
    kp.last_offset - kp.first_offset + 1
}

/// Whether the `i`th listed object joins the uncompacted counters: all do but a first
/// one that already holds a complete batch.
pub open spec fn counts(s: Seq<KeyPath>, i: int, threshold: u64) -> bool {
    !(i == 0 && record_count(s[0]) >= threshold)
}

/// The uncompacted records of the first `n` listed objects.
pub open spec fn records_sum(s: Seq<KeyPath>, n: int, threshold: u64) -> int
    decreases n,
{
    if n <= 0 {
        0
    } else {
        records_sum(s, n - 1, threshold) + if counts(s, n - 1, threshold) {
            record_count(s[n - 1])
        } else {
            0
        }
    }
}

/// The uncompacted bytes of the first `n` listed objects.
pub open spec fn size_sum(s: Seq<KeyPath>, n: int, threshold: u64) -> int
    decreases n,
{
    if n <= 0 {
        0
    } else {
        size_sum(s, n - 1, threshold) + if counts(s, n - 1, threshold) {
            s[n - 1].size as int
        } else {
            0
        }
    }
}

/// The uncompacted objects among the first `n` listed objects.
pub open spec fn objects_sum(s: Seq<KeyPath>, n: int, threshold: u64) -> int
    decreases n,
{
    if n <= 0 {
        0
    } else {
        objects_sum(s, n - 1, threshold) + if counts(s, n - 1, threshold) {
            1int
        } else {
            0
        }
    }
}

/// Whether the listed objects can be summed up: each holds a range of offsets, the last
/// one leaves room for a next offset, and the counters fit.
pub open spec fn listing_sound(s: Seq<KeyPath>, threshold: u64) -> bool {
    &&& forall|i: int| 0 <= i < s.len() ==> #[trigger] s[i].first_offset <= s[i].last_offset
    &&& s.len() > 0 ==> s.last().last_offset < u64::MAX
    &&& records_sum(s, s.len() as int, threshold) <= u64::MAX
    &&& size_sum(s, s.len() as int, threshold) <= u64::MAX
}

/// The state of a key read back from the objects listed from its watermark on; the next
/// object links back to the last listed one.
pub open spec fn listing_state(s: Seq<KeyPath>, watermark: Option<Watermark>, threshold: u64) -> CachedKey {
    if s.len() == 0 {
        fresh_key_state()
    } else {
        CachedKey {
            metadata: KeyMetadata {
                next_offset: (s.last().last_offset + 1) as u64,
                next_nonce: s.last().next_nonce,
            },
            uncompacted_objects: objects_sum(s, s.len() as int, threshold) as u64,
            uncompacted_records: records_sum(s, s.len() as int, threshold) as u64,
            uncompacted_size: size_sum(s, s.len() as int, threshold) as u64,
            prior_start_offset: s.last().first_offset,
            watermark: match watermark {
                Some(w) => w,
                None => Watermark { offset: 0 },
            },
        }
    }
}

proof fn lemma_sums_grow(s: Seq<KeyPath>, n: int, m: int, threshold: u64)
    requires
        0 <= n <= m <= s.len(),
        forall|i: int| 0 <= i < s.len() ==> #[trigger] s[i].first_offset <= s[i].last_offset,
    ensures
        records_sum(s, n, threshold) <= records_sum(s, m, threshold),
        size_sum(s, n, threshold) <= size_sum(s, m, threshold),
        objects_sum(s, n, threshold) <= objects_sum(s, m, threshold),
        objects_sum(s, m, threshold) <= m,
    decreases m,
{
    if m > 0 {
        if n < m {
            lemma_sums_grow(s, n, m - 1, threshold);
        }
        lemma_sums_grow(s, m - 1, m - 1, threshold);
        assert(s[m - 1].first_offset <= s[m - 1].last_offset);
    }
}

/// The state of a key read back from the key paths of the objects listed from its
/// watermark on, in ascending order. `BadData` where they cannot be summed up.
pub fn summarize_key_paths(
    list: &Vec<KeyPath>,
    watermark: Option<Watermark>,
    compact_records_threshold: u64,
) -> (r: Result<CachedKey, StoreError>)
    ensures
        listing_sound(list@, compact_records_threshold) <==> r is Ok,
        r matches Ok(k) ==> k == listing_state(list@, watermark, compact_records_threshold),
        r matches Err(e) ==> e is BadData,
{
    let n = list.len();
    if n == 0 {
        return Ok(
            CachedKey {
                metadata: KeyMetadata { next_nonce: 0, next_offset: 1 },
                uncompacted_records: 0,
                uncompacted_objects: 0,
                uncompacted_size: 0,
                prior_start_offset: 0,
                watermark: Watermark::new(0),
            },
        );
    }
    let mut uncompacted_records: u64 = 0;
    let mut uncompacted_objects: u64 = 0;
    let mut uncompacted_size: u64 = 0;
    let mut i: usize = 0;
    while i < n
        invariant
            n == list@.len(),
            i <= n,
            forall|k: int| 0 <= k < i ==> #[trigger] list@[k].first_offset <= list@[k].last_offset,
            uncompacted_records == records_sum(list@, i as int, compact_records_threshold),
            uncompacted_size == size_sum(list@, i as int, compact_records_threshold),
            uncompacted_objects == objects_sum(list@, i as int, compact_records_threshold),
            objects_sum(list@, i as int, compact_records_threshold) <= i,
        decreases n - i,
    {
        let kp = &list[i];
        if kp.last_offset < kp.first_offset {
            return Err(StoreError::BadData(message("invalid key path range")));
        }
        let count: u64 = kp.last_offset - kp.first_offset;
        let counted: bool = !(i == 0 && (count as u128) + 1 >= compact_records_threshold as u128);
        let ghost prefix_ok = forall|k: int|
            0 <= k < list@.len() ==> #[trigger] list@[k].first_offset <= list@[k].last_offset;
        proof {
            if prefix_ok {
                lemma_sums_grow(list@, i + 1, n as int, compact_records_threshold);
            }
        }
        if counted {
            if count == u64::MAX || uncompacted_records > u64::MAX - (count + 1) {
                return Err(StoreError::BadData(message("uncompacted records overflow")));
            }
            if uncompacted_size > u64::MAX - kp.size {
                return Err(StoreError::BadData(message("uncompacted size overflow")));
            }
            uncompacted_records = uncompacted_records + count + 1;
            uncompacted_size = uncompacted_size + kp.size;
            uncompacted_objects = uncompacted_objects + 1;
        }
        i = i + 1;
    }
    let last = &list[n - 1];
    if last.last_offset == u64::MAX {
        return Err(StoreError::BadData(message("offset space exhausted")));
    }
    Ok(
        CachedKey {
            metadata: KeyMetadata { next_nonce: last.next_nonce, next_offset: last.last_offset + 1 },
            uncompacted_records,
            uncompacted_objects,
            uncompacted_size,
            prior_start_offset: last.first_offset,
            watermark: match watermark {
                Some(wm) => wm,
                None => Watermark::new(0),
            },
        },
    )
}

/// The key paths of listed object paths; `BadData` where one names no data object.
pub fn parse_listing(parser: &KeyPathParser, list: &Vec<String>) -> (r: Result<Vec<KeyPath>, StoreError>)
    ensures
        r matches Ok(v) ==> v@.len() == list@.len() && forall|i: int|
            0 <= i < list@.len() ==> parse_path(#[trigger] list@[i]@) == Some(v@[i]),
        r is Err <==> exists|i: int| 0 <= i < list@.len() && parse_path(#[trigger] list@[i]@) is None,
        r matches Err(e) ==> e is BadData,
{
    let mut out: Vec<KeyPath> = Vec::new();
    let mut i: usize = 0;
    while i < list.len()
        invariant
            i <= list@.len(),
            out@.len() == i,
            forall|k: int| 0 <= k < i ==> parse_path(#[trigger] list@[k]@) == Some(out@[k]),
        decreases list@.len() - i,
    {
        match parser.parse(list[i].as_str()) {
            Some(kp) => out.push(kp),
            None => return Err(StoreError::BadData(message("invalid key path"))),
        }
        i = i + 1;
    }
    Ok(out)
}

/// What compaction does with the objects listed after the watermark.
pub enum CompactionStep {
    /// nothing was listed: the listing lags the write that triggered compaction
    Empty,
    /// a single object: the watermark moves to it, and the key takes this state
    Single(CachedKey),
    /// several objects: they are merged
    Merge,
}

/// Decides what compaction does with the listed objects: nothing to do with none, move
/// the watermark to a single one, never deleting it, and merge several.
pub fn compaction_step(key_data: &CachedKey, objects: &Vec<KeyPath>) -> (r: CompactionStep)
    ensures
        objects@.len() == 0 ==> r is Empty,
        objects@.len() == 1 ==> r == CompactionStep::Single(
            CachedKey {
                metadata: key_data.metadata,
                uncompacted_objects: 0,
                uncompacted_records: 0,
                uncompacted_size: 0,
                prior_start_offset: key_data.prior_start_offset,
                watermark: Watermark { offset: objects@[0].first_offset },
            },
        ),
        objects@.len() > 1 ==> r is Merge,
{
    if objects.len() == 0 {
        CompactionStep::Empty
    } else if objects.len() == 1 {
        CompactionStep::Single(single_object_state(key_data, &objects[0]))
    } else {
        CompactionStep::Merge
    }
}

} // verus!
