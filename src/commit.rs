//! What the ingestion bridge counts between two commits of its consumer offsets.
use vstd::prelude::*;
use std::collections::BTreeMap;

verus! {

broadcast use {vstd::laws_cmp::group_laws_cmp, vstd::std_specs::btree::group_btree_axioms};

/// The records of one partition since the last commit.
#[derive(Clone, Copy, Debug, PartialEq, Eq, Structural)]
pub struct PartitionStats {
    pub record_count: usize,
    pub last_timestamp: Option<i64>,
}

/// The stats of a partition after one more record: the count grows (saturating) and a
/// given timestamp replaces the last one.
pub open spec fn stats_after(s: PartitionStats, timestamp: Option<i64>) -> PartitionStats {
    PartitionStats {
        record_count: if s.record_count == usize::MAX { usize::MAX } else { (s.record_count + 1) as usize },
        last_timestamp: if timestamp is Some { timestamp } else { s.last_timestamp },
    }
}

impl PartitionStats {
    /// The stats of a partition's first record.
    pub fn first(last_timestamp: Option<i64>) -> (r: Self)
        ensures
            r == (PartitionStats { record_count: 1, last_timestamp }),
    {
        Self { record_count: 1, last_timestamp }
    }

    /// Counts one more record.
    pub fn increment(&mut self, timestamp: Option<i64>)
        ensures
            *final(self) == stats_after(*old(self), timestamp),
    {
        self.record_count = self.record_count.saturating_add(1);
        if timestamp.is_some() {
            self.last_timestamp = timestamp;
        }
    }
}

/// The records consumed since the last commit, in all and by partition.
pub struct CommitStats {
    pub record_count_since_commit: usize,
    pub partition_stats: BTreeMap<i32, PartitionStats>,
}

impl CommitStats {
    pub fn new() -> (r: Self)
        ensures
            r.record_count_since_commit == 0,
            r.partition_stats@ == Map::<i32, PartitionStats>::empty(),
    {
        Self { record_count_since_commit: 0, partition_stats: BTreeMap::new() }
    }

    /// Forgets the partitions' stats; the count since the commit stays.
    pub fn reset(&mut self)
        ensures
            final(self).record_count_since_commit == old(self).record_count_since_commit,
            final(self).partition_stats@ == Map::<i32, PartitionStats>::empty(),
    {
        self.partition_stats.clear();
    }

    /// Counts one record of a partition.
    pub fn increment(&mut self, partition: i32, timestamp: Option<i64>)
        ensures
            final(self).record_count_since_commit == if old(self).record_count_since_commit == usize::MAX {
                usize::MAX
            } else {
                (old(self).record_count_since_commit + 1) as usize
            },
            final(self).partition_stats@ == old(self).partition_stats@.insert(
                partition,
                if old(self).partition_stats@.contains_key(partition) {
                    stats_after(old(self).partition_stats@[partition], timestamp)
                } else {
                    PartitionStats { record_count: 1, last_timestamp: timestamp }
                },
            ),
    {
        self.record_count_since_commit = self.record_count_since_commit.saturating_add(1);
        let next = match self.partition_stats.get(&partition) {
            Some(entry) => {
                let mut e = *entry;
                e.increment(timestamp);
                e
            },
            None => PartitionStats::first(timestamp),
        };
        self.partition_stats.insert(partition, next);
    }

    /// Whether records were consumed since the last commit, so that a commit is due.
    pub fn needs_commit(&self) -> (r: bool)
        ensures
            r == (self.record_count_since_commit > 0),
    {
        self.record_count_since_commit > 0
    }
}

} // verus!
