//! The batching writer's decisions: which lane owns a key, and how a lane gathers
//! appends into per-key batches and when it hands a batch on to be written.
use vstd::prelude::*;
use linked_hash_map::LinkedHashMap;
use std::hash::{Hash, Hasher};
use crate::cache::{has_key, lookup, without_key, KeyName};
use crate::error::message;
use crate::time::stamped;
use crate::{Append, Insertion};

verus! {

broadcast use vstd::seq_lib::group_seq_properties;

/// The configuration of the batching writer.
#[derive(Clone, Copy, Debug)]
pub struct BatchingStoreWriterConfig {
    pub writer_thread_count: usize,
    pub writer_thread_queue_capacity: Option<usize>,
    pub batch_check_interval_millis: u64,
    pub batch_flush_interval_millis: u64,
    pub batch_flush_item_count_threshold: u64,
    pub batch_flush_size_threshold: u64,
}

impl BatchingStoreWriterConfig {
    /// One lane with an unbounded queue; deadlines checked every 100 ms; a batch is
    /// flushed after 1 s or at 1 MiB, with no bound on its count.
    pub fn new() -> (r: Self)
        ensures
            r.writer_thread_count == 1,
            r.writer_thread_queue_capacity is None,
            r.batch_check_interval_millis == 100,
            r.batch_flush_interval_millis == 1000,
            r.batch_flush_item_count_threshold == u64::MAX,
            r.batch_flush_size_threshold == 1024 * 1024,
    {
        Self {
            writer_thread_count: 1,
            writer_thread_queue_capacity: None,
            batch_check_interval_millis: 100,
            batch_flush_interval_millis: 1000,
            batch_flush_item_count_threshold: u64::MAX,
            batch_flush_size_threshold: 1024 * 1024,
        }
    }

    /// Sets the number of writer threads; each key is always written by the same one.
    pub fn set_writer_thread_count(self, v: usize) -> (r: Self)
        ensures
            r == (Self { writer_thread_count: v, ..self }),
    {
        Self { writer_thread_count: v, ..self }
    }

    /// Sets how many writes may wait for each writer thread; `None` for no bound.
    pub fn set_writer_thread_queue_capacity(self, v: Option<usize>) -> (r: Self)
        ensures
            r == (Self { writer_thread_queue_capacity: v, ..self }),
    {
        Self { writer_thread_queue_capacity: v, ..self }
    }

    /// Sets how often the batches' deadlines are checked.
    pub fn set_batch_check_interval_millis(self, v: u64) -> (r: Self)
        ensures
            r == (Self { batch_check_interval_millis: v, ..self }),
    {
        Self { batch_check_interval_millis: v, ..self }
    }

    /// Sets how long a batch may wait before it is flushed.
    pub fn set_batch_flush_interval_millis(self, v: u64) -> (r: Self)
        ensures
            r == (Self { batch_flush_interval_millis: v, ..self }),
    {
        Self { batch_flush_interval_millis: v, ..self }
    }

    /// Sets the record count at which a batch is flushed.
    pub fn set_batch_flush_item_count_threshold(self, v: u64) -> (r: Self)
        ensures
            r == (Self { batch_flush_item_count_threshold: v, ..self }),
    {
        Self { batch_flush_item_count_threshold: v, ..self }
    }

    /// Sets the size in bytes at which a batch is flushed.
    pub fn set_batch_flush_size_threshold(self, v: u64) -> (r: Self)
        ensures
            r == (Self { batch_flush_size_threshold: v, ..self }),
    {
        Self { batch_flush_size_threshold: v, ..self }
    }
}

/// The hash of a keyspace and key that lanes are chosen by.
pub uninterp spec fn key_hash(keyspace: Seq<char>, key: Seq<char>) -> u64;

/// Relies on `std::collections::hash_map::DefaultHasher`, made by `new` and so unseeded,
/// fed the keyspace then the key: its result depends on the two strings alone.
#[verifier::external_body]
fn hash_key(keyspace: &str, key: &str) -> (r: u64)
    ensures
        r == key_hash(keyspace@, key@),
{
    let mut s = std::collections::hash_map::DefaultHasher::new();
    keyspace.hash(&mut s);
    key.hash(&mut s);
    s.finish()
}

/// The lane that owns a key: the same key always goes to the same lane.
pub fn lane(keyspace: &str, key: &str, thread_count: u64) -> (r: usize)
    requires
        0 < thread_count <= usize::MAX,
    ensures
        r < thread_count,
        r as int == key_hash(keyspace@, key@) as int % thread_count as int,
{
    let h = hash_key(keyspace, key);
    let r = h % thread_count;
    proof {
        vstd::arithmetic::div_mod::lemma_mod_bound(h as int, thread_count as int);
    }
    r as usize
}

/// The records of one key waiting in a lane.
pub struct Batch {
    pub inserts: Vec<Insertion>,
    pub size: u64,
    pub flush_timestamp: u64,
}

/// What a batch holds.
pub struct BatchView {
    pub inserts: Seq<Insertion>,
    pub size: u64,
    pub flush_timestamp: u64,
}

impl View for Batch {
    type V = BatchView;

    open spec fn view(&self) -> BatchView {
        BatchView { inserts: self.inserts@, size: self.size, flush_timestamp: self.flush_timestamp }
    }
}

/// The batches of a lane, oldest first.
pub uninterp spec fn batch_entries(m: LinkedHashMap<(String, String), Batch>) -> Seq<(KeyName, BatchView)>;

/// The entries with the value of key `k` replaced, in place.
pub open spec fn replace_value<V>(e: Seq<(KeyName, V)>, k: KeyName, v: V) -> Seq<(KeyName, V)> {
    e.map_values(|x: (KeyName, V)| if x.0 == k { (k, v) } else { x })
}

/// Relies on `LinkedHashMap::new`: an empty map.
#[verifier::external_body]
fn batch_map_new() -> (r: LinkedHashMap<(String, String), Batch>)
    ensures
        batch_entries(r) == Seq::<(KeyName, BatchView)>::empty(),
{
    LinkedHashMap::new()
}

/// Relies on `LinkedHashMap::contains_key`.
#[verifier::external_body]
fn batch_map_has(m: &LinkedHashMap<(String, String), Batch>, keyspace: &str, key: &str) -> (r: bool)
    ensures
        r == has_key(batch_entries(*m), (keyspace@, key@)),
{
    m.contains_key(&(keyspace.to_string(), key.to_string()))
}

/// Relies on `LinkedHashMap::get_mut`: the value of a key is swapped for `b` in place.
#[verifier::external_body]
fn batch_map_swap(m: &mut LinkedHashMap<(String, String), Batch>, keyspace: &str, key: &str, b: Batch) -> (r: Batch)
    requires
        has_key(batch_entries(*old(m)), (keyspace@, key@)),
    ensures
        Some(r@) == lookup(batch_entries(*old(m)), (keyspace@, key@)),
        batch_entries(*final(m)) == replace_value(batch_entries(*old(m)), (keyspace@, key@), b@),
{
    std::mem::replace(m.get_mut(&(keyspace.to_string(), key.to_string())).unwrap(), b)
}

/// Relies on `LinkedHashMap::insert` of a key the map does not hold: it goes last.
#[verifier::external_body]
fn batch_map_insert(m: &mut LinkedHashMap<(String, String), Batch>, keyspace: &str, key: &str, b: Batch)
    requires
        !has_key(batch_entries(*old(m)), (keyspace@, key@)),
    ensures
        batch_entries(*final(m)) == batch_entries(*old(m)).push(((keyspace@, key@), b@)),
{
    m.insert((keyspace.to_string(), key.to_string()), b);
}

/// Relies on `LinkedHashMap::remove`: the key's entry leaves, and its value is returned.
#[verifier::external_body]
fn batch_map_remove(m: &mut LinkedHashMap<(String, String), Batch>, keyspace: &str, key: &str) -> (r: Option<Batch>)
    ensures
        match r {
            Some(b) => Some(b@) == lookup(batch_entries(*old(m)), (keyspace@, key@)),
            None => !has_key(batch_entries(*old(m)), (keyspace@, key@)),
        },
        batch_entries(*final(m)) == without_key(batch_entries(*old(m)), (keyspace@, key@)),
{
    m.remove(&(keyspace.to_string(), key.to_string()))
}

/// Relies on `LinkedHashMap::pop_front`: the oldest entry leaves and is returned.
#[verifier::external_body]
fn batch_map_pop_front(m: &mut LinkedHashMap<(String, String), Batch>) -> (r: Option<(String, String, Batch)>)
    ensures
        batch_entries(*old(m)).len() == 0 ==> r is None && batch_entries(*final(m)) == batch_entries(*old(m)),
        batch_entries(*old(m)).len() > 0 ==> (r matches Some((ks, k, b)) && ((ks@, k@), b@) == batch_entries(*old(m))[0]
            && batch_entries(*final(m)) == batch_entries(*old(m)).drop_first()),
{
    m.pop_front().map(|(k, b)| (k.0, k.1, b))
}

/// Relies on `LinkedHashMap::front`: the deadline of the oldest batch.
#[verifier::external_body]
fn batch_map_front_deadline(m: &LinkedHashMap<(String, String), Batch>) -> (r: Option<u64>)
    ensures
        batch_entries(*m).len() == 0 ==> r is None,
        batch_entries(*m).len() > 0 ==> r == Some(batch_entries(*m)[0].1.flush_timestamp),
{
    m.front().map(|(_, b)| b.flush_timestamp)
}

/// `x`, or `u64::MAX` where it does not fit.
pub open spec fn sat(x: int) -> u64 {
    if x > u64::MAX {
        u64::MAX
    } else {
        x as u64
    }
}

/// The total length of the records' values.
pub open spec fn values_size(s: Seq<Insertion>) -> int
    decreases s.len(),
{
    if s.len() == 0 {
        0
    } else {
        values_size(s.drop_last()) + s.last().record@.len()
    }
}

/// The insertions with each missing timestamp set to `now`.
pub open spec fn stamp_all(s: Seq<Insertion>, now: i64) -> Seq<Insertion> {
    Seq::new(
        s.len(),
        |i: int| Insertion { record: s[i].record, nonce: s[i].nonce, timestamp: Some(stamped(s[i], now)) },
    )
}

/// The appends to be written, as keys and records.
pub open spec fn appends_view(s: Seq<Append>) -> Seq<(KeyName, Seq<Insertion>)> {
    s.map_values(|a: Append| ((a.keyspace@, a.key@), a.records@))
}

/// The batches of one lane, with the thresholds that flush them.
pub struct LaneBatches {
    batches: LinkedHashMap<(String, String), Batch>,
    batch_flush_interval_millis: u64,
    batch_flush_record_count_threshold: u64,
    batch_flush_size_threshold: u64,
}

/// What a lane holds and writes after an append of `inserts`, already stamped and
/// `size` bytes long, to key `k` at time `now`: an existing batch takes them, and where
/// it then reaches a threshold the oldest batch is written; a new key's records are
/// written at once where batching is off or they reach a threshold, and else start a
/// batch due at `now` plus the interval.
pub open spec fn after_append(
    e: Seq<(KeyName, BatchView)>,
    k: KeyName,
    inserts: Seq<Insertion>,
    size: u64,
    now: u64,
    interval: u64,
    count_threshold: u64,
    size_threshold: u64,
) -> (Seq<(KeyName, BatchView)>, Seq<(KeyName, Seq<Insertion>)>) {
    if has_key(e, k) {
        let b = lookup(e, k)->Some_0;
        let nb = BatchView {
            inserts: b.inserts + inserts,
            size: sat(b.size + size),
            flush_timestamp: b.flush_timestamp,
        };
        let e1 = replace_value(e, k, nb);
        if nb.inserts.len() >= count_threshold || nb.size >= size_threshold {
            (e1.drop_first(), seq![(e1[0].0, e1[0].1.inserts)])
        } else {
            (e1, seq![])
        }
    } else if interval == 0 || inserts.len() >= count_threshold || size >= size_threshold {
        (e, seq![(k, inserts)])
    } else {
        (e.push((k, BatchView { inserts, size, flush_timestamp: sat(now + interval) })), seq![])
    }
}

/// The batches whose deadline has passed at `now`, taken oldest first while the oldest
/// one is due.
pub open spec fn due_count(e: Seq<(KeyName, BatchView)>, now: u64) -> nat
    decreases e.len(),
{
    if e.len() > 0 && now > e[0].1.flush_timestamp {
        1 + due_count(e.drop_first(), now)
    } else {
        0
    }
}

/// The entries as appends to write.
pub open spec fn as_writes(e: Seq<(KeyName, BatchView)>) -> Seq<(KeyName, Seq<Insertion>)> {
    e.map_values(|x: (KeyName, BatchView)| (x.0, x.1.inserts))
}

fn make_append(keyspace: String, key: String, records: Vec<Insertion>) -> (r: Append)
    ensures
        r.keyspace@ == keyspace@,
        r.key@ == key@,
        r.records@ == records@,
{
    Append { keyspace, key, records }
}

impl LaneBatches {
    /// The batches, oldest first.
    pub closed spec fn entries(&self) -> Seq<(KeyName, BatchView)> {
        batch_entries(self.batches)
    }

    /// How long a new batch waits before it is due.
    pub closed spec fn interval(&self) -> u64 {
        self.batch_flush_interval_millis
    }

    /// The record count at which a batch is written.
    pub closed spec fn count_threshold(&self) -> u64 {
        self.batch_flush_record_count_threshold
    }

    /// The size at which a batch is written.
    pub closed spec fn size_threshold(&self) -> u64 {
        self.batch_flush_size_threshold
    }

    /// A lane with no batch, flushing by the configuration's thresholds.
    pub fn new(config: &BatchingStoreWriterConfig) -> (r: Self)
        ensures
            r.entries() == Seq::<(KeyName, BatchView)>::empty(),
            r.interval() == config.batch_flush_interval_millis,
            r.count_threshold() == config.batch_flush_item_count_threshold,
            r.size_threshold() == config.batch_flush_size_threshold,
    {
        LaneBatches {
            batches: batch_map_new(),
            batch_flush_interval_millis: config.batch_flush_interval_millis,
            batch_flush_record_count_threshold: config.batch_flush_item_count_threshold,
            batch_flush_size_threshold: config.batch_flush_size_threshold,
        }
    }

    /// Takes an append to a key at time `now` (milliseconds since the epoch); returns
    /// what is to be written now, in order.
    pub fn append(&mut self, keyspace: &str, key: &str, inserts: Vec<Insertion>, now: u64) -> (r: Vec<Append>)
        ensures
            final(self).interval() == old(self).interval(),
            final(self).count_threshold() == old(self).count_threshold(),
            final(self).size_threshold() == old(self).size_threshold(),
            ({
                let stamp_now: i64 = if now > i64::MAX as u64 { i64::MAX } else { now as i64 };
                let s = stamp_all(inserts@, stamp_now);
                let res = after_append(
                    old(self).entries(),
                    (keyspace@, key@),
                    s,
                    sat(values_size(inserts@)),
                    now,
                    old(self).interval(),
                    old(self).count_threshold(),
                    old(self).size_threshold(),
                );
                final(self).entries() == res.0 && appends_view(r@) == res.1
            }),
    {
        let stamp_now: i64 = if now > i64::MAX as u64 {
            i64::MAX
        } else {
            now as i64
        };
        let ghost orig = inserts@;
        let mut inserts = inserts;
        let mut size: u64 = 0;
        let mut i: usize = 0;
        assert(orig.subrange(0, 0) =~= Seq::<Insertion>::empty());
        while i < inserts.len()
            invariant
                i <= inserts@.len(),
                inserts@.len() == orig.len(),
                forall|j: int| 0 <= j < i ==> #[trigger] inserts@[j] == stamp_all(orig, stamp_now)[j],
                forall|j: int| i <= j < orig.len() ==> #[trigger] inserts@[j] == orig[j],
                size == sat(values_size(orig.subrange(0, i as int))),
            decreases orig.len() - i,
        {
            proof {
                lemma_values_size_step(orig, i as int);
            }
            size = size.saturating_add(inserts[i].record.len() as u64);
            let slot = &mut inserts[i];
            if slot.timestamp.is_none() {
                slot.timestamp = Some(stamp_now);
            }
            i = i + 1;
        }
        assert(orig.subrange(0, i as int) =~= orig);
        assert(inserts@ =~= stamp_all(orig, stamp_now));
        let mut out: Vec<Append> = Vec::new();
        if batch_map_has(&self.batches, keyspace, key) {
            let placeholder = Batch { inserts: Vec::new(), size: 0, flush_timestamp: 0 };
            let ghost placeholder_view = placeholder@;
            let mut batch = batch_map_swap(&mut self.batches, keyspace, key, placeholder);
            batch.inserts.append(&mut inserts);
            batch.size = batch.size.saturating_add(size);
            let count = batch.inserts.len() as u64;
            let bsize = batch.size;
            proof {
                lemma_replace_value(old(self).entries(), (keyspace@, key@), placeholder_view, batch@);
            }
            batch_map_swap(&mut self.batches, keyspace, key, batch);
            proof {
                let k = (keyspace@, key@);
                assert(self.entries() =~= replace_value(old(self).entries(), k, batch@));
            }
            if count >= self.batch_flush_record_count_threshold || bsize >= self.batch_flush_size_threshold {
                match batch_map_pop_front(&mut self.batches) {
                    Some((ks, k, b)) => {
                        out.push(make_append(ks, k, b.inserts));
                    },
                    None => {},
                }
            }
        } else if self.batch_flush_interval_millis == 0 || inserts.len() as u64 >= self.batch_flush_record_count_threshold
            || size >= self.batch_flush_size_threshold {
            out.push(make_append(message(keyspace), message(key), inserts));
        } else {
            let deadline = now.saturating_add(self.batch_flush_interval_millis);
            batch_map_insert(&mut self.batches, keyspace, key, Batch { inserts, size, flush_timestamp: deadline });
        }
        out
    }

    /// Takes the batch of one key, where there is one, to be written now.
    pub fn flush_key(&mut self, keyspace: &str, key: &str) -> (r: Vec<Append>)
        ensures
            final(self).interval() == old(self).interval(),
            final(self).count_threshold() == old(self).count_threshold(),
            final(self).size_threshold() == old(self).size_threshold(),
            final(self).entries() == without_key(old(self).entries(), (keyspace@, key@)),
            match lookup(old(self).entries(), (keyspace@, key@)) {
                Some(b) => appends_view(r@) == seq![((keyspace@, key@), b.inserts)],
                None => r@.len() == 0,
            },
    {
        let mut out: Vec<Append> = Vec::new();
        match batch_map_remove(&mut self.batches, keyspace, key) {
            Some(b) => {
                out.push(make_append(message(keyspace), message(key), b.inserts));
                assert(appends_view(out@) =~= seq![((keyspace@, key@), b@.inserts)]);
            },
            None => {},
        }
        out
    }

    /// Takes every batch, oldest first, to be written now.
    pub fn flush_all(&mut self) -> (r: Vec<Append>)
        ensures
            final(self).interval() == old(self).interval(),
            final(self).count_threshold() == old(self).count_threshold(),
            final(self).size_threshold() == old(self).size_threshold(),
            final(self).entries() == Seq::<(KeyName, BatchView)>::empty(),
            appends_view(r@) == as_writes(old(self).entries()),
    {
        let mut out: Vec<Append> = Vec::new();
        let ghost e0 = self.entries();
        let ghost mut taken: int = 0;
        assert(as_writes(e0.subrange(0, 0)) =~= appends_view(out@));
        assert(e0.subrange(0, e0.len() as int) =~= e0);
        loop
            invariant
                self.batch_flush_interval_millis == old(self).interval(),
                self.batch_flush_record_count_threshold == old(self).count_threshold(),
                self.batch_flush_size_threshold == old(self).size_threshold(),
                e0 == old(self).entries(),
                0 <= taken <= e0.len(),
                self.entries() == e0.subrange(taken, e0.len() as int),
                appends_view(out@) == as_writes(e0.subrange(0, taken)),
            ensures
                taken == e0.len(),
            decreases e0.len() - taken,
        {
            let ghost before = self.entries();
            let ghost out0 = out@;
            match batch_map_pop_front(&mut self.batches) {
                Some((ks, k, b)) => {
                    let a = make_append(ks, k, b.inserts);
                    out.push(a);
                    proof {
                        lemma_take_one(e0, taken, out0, out@, before, self.entries());
                        taken = taken + 1;
                    }
                },
                None => {
                    break;
                },
            }
        }
        assert(e0.subrange(0, taken) =~= e0);
        assert(self.entries() =~= Seq::<(KeyName, BatchView)>::empty());
        out
    }

    /// Takes the batches due at `now`, oldest first while the oldest one is due, to be
    /// written now.
    pub fn check_write(&mut self, now: u64) -> (r: Vec<Append>)
        ensures
            final(self).interval() == old(self).interval(),
            final(self).count_threshold() == old(self).count_threshold(),
            final(self).size_threshold() == old(self).size_threshold(),
            due_count(old(self).entries(), now) <= old(self).entries().len(),
            final(self).entries() == old(self).entries().subrange(
                due_count(old(self).entries(), now) as int,
                old(self).entries().len() as int,
            ),
            appends_view(r@) == as_writes(old(self).entries().subrange(0, due_count(old(self).entries(), now) as int)),
    {
        let mut out: Vec<Append> = Vec::new();
        let ghost e0 = self.entries();
        let ghost mut taken: int = 0;
        proof {
            lemma_due_count(e0, 0, now);
        }
        assert(as_writes(e0.subrange(0, 0)) =~= appends_view(out@));
        assert(e0.subrange(0, e0.len() as int) =~= e0);
        loop
            invariant
                self.batch_flush_interval_millis == old(self).interval(),
                self.batch_flush_record_count_threshold == old(self).count_threshold(),
                self.batch_flush_size_threshold == old(self).size_threshold(),
                e0 == old(self).entries(),
                0 <= taken <= e0.len(),
                due_count(e0, now) == taken + due_count(e0.subrange(taken, e0.len() as int), now),
                self.entries() == e0.subrange(taken, e0.len() as int),
                appends_view(out@) == as_writes(e0.subrange(0, taken)),
            ensures
                taken == due_count(e0, now),
            decreases e0.len() - taken,
        {
            let due = match batch_map_front_deadline(&self.batches) {
                Some(deadline) => now > deadline,
                None => false,
            };
            if !due {
                break;
            }
            proof {
                lemma_due_count(e0, taken, now);
            }
            let ghost before = self.entries();
            let ghost out0 = out@;
            match batch_map_pop_front(&mut self.batches) {
                Some((ks, k, b)) => {
                    let a = make_append(ks, k, b.inserts);
                    out.push(a);
                    proof {
                        lemma_take_one(e0, taken, out0, out@, before, self.entries());
                        taken = taken + 1;
                    }
                },
                None => {
                    break;
                },
            }
        }
        proof {
            lemma_due_count(e0, 0, now);
        }
        out
    }
}

proof fn lemma_values_size_step(s: Seq<Insertion>, i: int)
    requires
        0 <= i < s.len(),
    ensures
        values_size(s.subrange(0, i + 1)) == values_size(s.subrange(0, i)) + s[i].record@.len(),
        values_size(s.subrange(0, i)) >= 0,
{
    assert(s.subrange(0, i + 1).drop_last() =~= s.subrange(0, i));
    lemma_values_size_nonneg(s.subrange(0, i));
}

proof fn lemma_values_size_nonneg(s: Seq<Insertion>)
    ensures
        values_size(s) >= 0,
    decreases s.len(),
{
    if s.len() > 0 {
        lemma_values_size_nonneg(s.drop_last());
    }
}

proof fn lemma_replace_value<V>(e: Seq<(KeyName, V)>, k: KeyName, v: V, w: V)
    requires
        has_key(e, k),
    ensures
        has_key(replace_value(e, k, v), k),
        lookup(replace_value(e, k, v), k) == Some(v),
        replace_value(replace_value(e, k, v), k, w) == replace_value(e, k, w),
{
    let e1 = replace_value(e, k, v);
    let i = choose|i: int| 0 <= i < e.len() && #[trigger] e[i].0 == k;
    assert(e1[i].0 == k);
    let j = choose|j: int| 0 <= j < e1.len() && #[trigger] e1[j].0 == k;
    assert(e1[j] == (k, v));
    assert(replace_value(e1, k, w) =~= replace_value(e, k, w));
}

proof fn lemma_take_one(
    e0: Seq<(KeyName, BatchView)>,
    taken: int,
    out0: Seq<Append>,
    out1: Seq<Append>,
    before: Seq<(KeyName, BatchView)>,
    after: Seq<(KeyName, BatchView)>,
)
    requires
        0 <= taken < e0.len(),
        before == e0.subrange(taken, e0.len() as int),
        before.len() > 0,
        after == before.drop_first(),
        appends_view(out0) == as_writes(e0.subrange(0, taken)),
        out1.len() == out0.len() + 1,
        forall|i: int| 0 <= i < out0.len() ==> out1[i] == out0[i],
        ((out1.last().keyspace@, out1.last().key@), out1.last().records@) == (before[0].0, before[0].1.inserts),
    ensures
        after == e0.subrange(taken + 1, e0.len() as int),
        appends_view(out1) == as_writes(e0.subrange(0, taken + 1)),
{
    assert(after =~= e0.subrange(taken + 1, e0.len() as int));
    assert(before[0] == e0[taken]);
    assert(appends_view(out0).len() == out0.len());
    assert(out0.len() == taken);
    assert forall|i: int| 0 <= i < out1.len() implies appends_view(out1)[i] == as_writes(e0.subrange(0, taken + 1))[i] by {
        if i < out0.len() {
            assert(appends_view(out0)[i] == as_writes(e0.subrange(0, taken))[i]);
            assert(e0.subrange(0, taken + 1)[i] == e0.subrange(0, taken)[i]);
        } else {
            assert(i == taken);
            assert(e0.subrange(0, taken + 1)[i] == e0[taken]);
        }
    }
    assert(appends_view(out1) =~= as_writes(e0.subrange(0, taken + 1)));
}

proof fn lemma_due_count(e: Seq<(KeyName, BatchView)>, k: int, now: u64)
    requires
        0 <= k <= e.len(),
    ensures
        due_count(e.subrange(k, e.len() as int), now) <= e.len() - k,
        k < e.len() && now > e[k].1.flush_timestamp ==> due_count(e.subrange(k, e.len() as int), now)
            == 1 + due_count(e.subrange(k + 1, e.len() as int), now),
    decreases e.len() - k,
{
    let t = e.subrange(k, e.len() as int);
    if k < e.len() {
        lemma_due_count(e, k + 1, now);
        assert(t.drop_first() =~= e.subrange(k + 1, e.len() as int));
    }
}

} // verus!
