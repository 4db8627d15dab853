//! The record codec: frames of records inside one object, filters over them, and the
//! nonce filter applied before a batch is written.
use vstd::prelude::*;
use crate::buffer::{
    append_buffer, append_i64, append_u128, append_u32, append_u64, le_bytes, le_value,
    read_bytes_copy, read_i64, read_u128, read_u32, read_u64, signed_of, unsigned_of, window,
};
use crate::error::{message, StoreError};
use crate::time::{now_as_timestamp, stamped};
use crate::{record_views, Direction, Insertion, Record, RecordView, StartPosition};

verus! {

broadcast use vstd::seq_lib::group_seq_properties;

/// Bytes of a frame before its value: offset, timestamp, nonce and value length.
pub const HEADER_SIZE: usize = 36;

/// The nonce as stored: `u128::MAX` stands for no nonce.
pub open spec fn nonce_bits(n: Option<u128>) -> u128 {
    match n {
        Some(v) => v,
        None => u128::MAX,
    }
}

/// The frame of one record: `u64 offset | i64 timestamp | u128 nonce | u32 value length | value | u32 total length`.
pub open spec fn frame(offset: u64, timestamp: i64, nonce: Option<u128>, value: Seq<u8>) -> Seq<u8> {
    le_bytes(offset as nat, 8) + le_bytes(unsigned_of(timestamp as int, 64), 8) + le_bytes(
        nonce_bits(nonce) as nat,
        16,
    ) + le_bytes(value.len(), 4) + value + le_bytes(value.len() + 36, 4)
}

/// The insertions behind a sequence of references.
pub open spec fn deref_all(s: Seq<&Insertion>) -> Seq<Insertion> {
    s.map_values(|r: &Insertion| *r)
}

/// The frames of a batch whose first record takes offset `first`.
pub open spec fn insert_frames(s: Seq<Insertion>, first: int, now: i64) -> Seq<Seq<u8>> {
    Seq::new(
        s.len(),
        |i: int| frame((first + i) as u64, stamped(s[i], now), s[i].nonce, s[i].record@),
    )
}

/// The object body of a batch whose first record takes offset `first`.
pub open spec fn serialized(s: Seq<Insertion>, first: int, now: i64) -> Seq<u8> {
    insert_frames(s, first, now).flatten()
}

/// The records a batch becomes once written with its first offset at `first`.
pub open spec fn stored_records(s: Seq<Insertion>, first: int, now: i64) -> Seq<RecordView> {
    Seq::new(
        s.len(),
        |i: int|
            RecordView {
                offset: (first + i) as u64,
                timestamp: stamped(s[i], now),
                nonce: s[i].nonce,
                value: s[i].record@,
            },
    )
}

/// The smallest timestamp of a batch, `i64::MAX` for none.
pub open spec fn min_stamp(s: Seq<Insertion>, now: i64) -> i64
    decreases s.len(),
{
    if s.len() == 0 {
        i64::MAX
    } else {
        let m = min_stamp(s.drop_last(), now);
        let t = stamped(s.last(), now);
        if t < m {
            t
        } else {
            m
        }
    }
}

/// The largest timestamp of a batch, `i64::MIN` for none.
pub open spec fn max_stamp(s: Seq<Insertion>, now: i64) -> i64
    decreases s.len(),
{
    if s.len() == 0 {
        i64::MIN
    } else {
        let m = max_stamp(s.drop_last(), now);
        let t = stamped(s.last(), now);
        if t > m {
            t
        } else {
            m
        }
    }
}

/// A batch that fits the frame format: each value's frame length fits in a `u32`.
pub open spec fn frames_fit(s: Seq<Insertion>) -> bool {
    forall|i: int| 0 <= i < s.len() ==> #[trigger] s[i].record@.len() + 36 <= u32::MAX
}

/// A serialized batch with its summary.
pub struct SerializedInsertion {
    pub first_insert_offset: u64,
    pub last_insert_offset: u64,
    pub next_offset: u64,
    pub min_timestamp: i64,
    pub max_timestamp: i64,
    pub buffer: Vec<u8>,
}

/// Serializes a batch with offsets from `next_offset` on, stamping insertions without a
/// timestamp with `now`.
pub fn serialize_insertion_at(inserts: &Vec<&Insertion>, next_offset: u64, now: i64) -> (r:
    SerializedInsertion)
    requires
        1 <= next_offset,
        next_offset + inserts@.len() <= u64::MAX,
        frames_fit(deref_all(inserts@)),
    ensures
        r.first_insert_offset == next_offset,
        r.next_offset == next_offset + inserts@.len(),
        r.last_insert_offset == next_offset + inserts@.len() - 1,
        r.min_timestamp == min_stamp(deref_all(inserts@), now),
        r.max_timestamp == max_stamp(deref_all(inserts@), now),
        r.buffer@ == serialized(deref_all(inserts@), next_offset as int, now),
{
    let ghost s = deref_all(inserts@);
    let mut buffer: Vec<u8> = Vec::new();
    let mut min_timestamp: i64 = i64::MAX;
    let mut max_timestamp: i64 = i64::MIN;
    let mut cur_offset: u64 = next_offset;
    let mut i: usize = 0;
    assert(s.subrange(0, 0) =~= Seq::<Insertion>::empty());
    assert(insert_frames(s.subrange(0, 0), next_offset as int, now) =~= Seq::<Seq<u8>>::empty());
    while i < inserts.len()
        invariant
            s == deref_all(inserts@),
            i <= inserts@.len(),
            1 <= next_offset,
            next_offset + inserts@.len() <= u64::MAX,
            frames_fit(s),
            cur_offset == next_offset + i,
            min_timestamp == min_stamp(s.subrange(0, i as int), now),
            max_timestamp == max_stamp(s.subrange(0, i as int), now),
            buffer@ == serialized(s.subrange(0, i as int), next_offset as int, now),
        decreases inserts@.len() - i,
    {
        let item: &Insertion = inserts[i];
        assert(*item == s[i as int]);
        let timestamp: i64 = match item.timestamp {
            Some(v) => v,
            None => now,
        };
        let nonce: u128 = match item.nonce {
            None => u128::MAX,
            Some(v) => v,
        };
        if timestamp < min_timestamp {
            min_timestamp = timestamp;
        }
        if timestamp > max_timestamp {
            max_timestamp = timestamp;
        }
        let ghost before = buffer@;
        let len: usize = item.record.len();
        assert(s[i as int].record@.len() + 36 <= u32::MAX);
        append_u64(&mut buffer, cur_offset);
        append_i64(&mut buffer, timestamp);
        append_u128(&mut buffer, nonce);
        append_u32(&mut buffer, len as u32);
        append_buffer(&mut buffer, item.record.as_slice());
        append_u32(&mut buffer, 36 + len as u32);
        proof {
            let t = s.subrange(0, i + 1);
            assert(t.drop_last() =~= s.subrange(0, i as int));
            assert(t.last() == s[i as int]);
            let fr = frame(cur_offset, timestamp, item.nonce, item.record@);
            assert(buffer@ =~= before + fr);
            assert(insert_frames(t, next_offset as int, now) =~= insert_frames(
                s.subrange(0, i as int),
                next_offset as int,
                now,
            ).push(fr));
            insert_frames(s.subrange(0, i as int), next_offset as int, now).lemma_flatten_push(fr);
        }
        cur_offset = cur_offset + 1;
        i = i + 1;
    }
    assert(s.subrange(0, i as int) =~= s);
    SerializedInsertion {
        first_insert_offset: next_offset,
        last_insert_offset: cur_offset - 1,
        next_offset: cur_offset,
        min_timestamp,
        max_timestamp,
        buffer,
    }
}

/// Serializes a batch with offsets from `next_offset` on, stamping insertions without a
/// timestamp with the current time.
pub fn serialize_insertion(inserts: &Vec<&Insertion>, next_offset: u64) -> (r: SerializedInsertion)
    requires
        1 <= next_offset,
        next_offset + inserts@.len() <= u64::MAX,
        frames_fit(deref_all(inserts@)),
    ensures
        exists|now: i64|
            r.min_timestamp == min_stamp(deref_all(inserts@), now) && r.max_timestamp == max_stamp(
                deref_all(inserts@),
                now,
            ) && r.buffer@ == serialized(deref_all(inserts@), next_offset as int, now),
        r.first_insert_offset == next_offset,
        r.next_offset == next_offset + inserts@.len(),
        r.last_insert_offset == next_offset + inserts@.len() - 1,
{
    let now = now_as_timestamp();
    serialize_insertion_at(inserts, next_offset, now)
}

/// Which records a read keeps, with its bounds already defaulted for its direction.
#[derive(Debug, Clone, Copy)]
pub struct RecordFilter {
    /// whether the read starts at a nonce, so that records without a nonce wait for the
    /// first match
    pub defined: bool,
    pub max_size: u64,
    pub start_offset: u64,
    pub start_timestamp: i64,
    pub start_nonce: u128,
    pub direction: Direction,
}

/// The filter for a start position: the position's own field is set and the other
/// bounds take the extreme value of the direction. Only a start at a nonce holds back
/// records without a nonce: an offset or a timestamp judges them like any other record.
pub open spec fn filter_for(position: StartPosition, max_size: u64, direction: Direction) -> RecordFilter {
    let forwards = direction == Direction::Forwards;
    RecordFilter {
        defined: position is Nonce,
        max_size,
        start_offset: match position {
            StartPosition::Offset(v) => v,
            _ => if forwards { 0 } else { u64::MAX },
        },
        start_timestamp: match position {
            StartPosition::Timestamp(v) => v,
            _ => if forwards { i64::MIN } else { i64::MAX },
        },
        start_nonce: match position {
            StartPosition::Nonce(v) => v,
            _ => if forwards { 0 } else { u128::MAX },
        },
        direction,
    }
}

impl RecordFilter {
    /// The filter that starts at `position` and keeps at most `max_size` records.
    pub fn from(position: &StartPosition, max_size: u64, direction: Direction) -> (r: RecordFilter)
        ensures
            r == filter_for(*position, max_size, direction),
    {
        match direction {
            Direction::Forwards => match position {
                StartPosition::Offset(v) => RecordFilter {
                    defined: false,
                    max_size,
                    start_offset: *v,
                    start_timestamp: i64::MIN,
                    start_nonce: 0,
                    direction,
                },
                StartPosition::Nonce(v) => RecordFilter {
                    defined: true,
                    max_size,
                    start_offset: 0,
                    start_timestamp: i64::MIN,
                    start_nonce: *v,
                    direction,
                },
                StartPosition::Timestamp(v) => RecordFilter {
                    defined: false,
                    max_size,
                    start_offset: 0,
                    start_timestamp: *v,
                    start_nonce: 0,
                    direction,
                },
                StartPosition::First => RecordFilter {
                    defined: false,
                    max_size,
                    start_offset: 0,
                    start_timestamp: i64::MIN,
                    start_nonce: 0,
                    direction,
                },
            },
            Direction::Backwards => match position {
                StartPosition::Offset(v) => RecordFilter {
                    defined: false,
                    max_size,
                    start_offset: *v,
                    start_timestamp: i64::MAX,
                    start_nonce: u128::MAX,
                    direction,
                },
                StartPosition::Nonce(v) => RecordFilter {
                    defined: true,
                    max_size,
                    start_offset: u64::MAX,
                    start_timestamp: i64::MAX,
                    start_nonce: *v,
                    direction,
                },
                StartPosition::Timestamp(v) => RecordFilter {
                    defined: false,
                    max_size,
                    start_offset: u64::MAX,
                    start_timestamp: *v,
                    start_nonce: u128::MAX,
                    direction,
                },
                StartPosition::First => RecordFilter {
                    defined: false,
                    max_size,
                    start_offset: u64::MAX,
                    start_timestamp: i64::MAX,
                    start_nonce: u128::MAX,
                    direction,
                },
            },
        }
    }

    /// The filter that resumes a read at offset `start_offset`.
    pub fn for_offset(start_offset: u64, max_size: u64, direction: Direction) -> (r: RecordFilter)
        ensures
            r == filter_for(StartPosition::Offset(start_offset), max_size, direction),
    {
        match direction {
            Direction::Forwards => RecordFilter {
                defined: false,
                max_size,
                start_offset,
                start_timestamp: i64::MIN,
                start_nonce: 0,
                direction,
            },
            Direction::Backwards => RecordFilter {
                defined: false,
                max_size,
                start_offset,
                start_timestamp: i64::MAX,
                start_nonce: u128::MAX,
                direction,
            },
        }
    }
}

/// Whether a record lies on the far side of the filter's bounds in its direction. A
/// record without a nonce passes a filter with a position only once a match was found.
pub open spec fn in_range(
    offset: u64,
    timestamp: i64,
    nonce: Option<u128>,
    f: RecordFilter,
    found_first_match: bool,
) -> bool {
    let nonce_ok = match nonce {
        None => !f.defined || found_first_match,
        Some(n) => if f.direction == Direction::Forwards {
            n >= f.start_nonce
        } else {
            n <= f.start_nonce
        },
    };
    if f.direction == Direction::Forwards {
        offset >= f.start_offset && timestamp >= f.start_timestamp && nonce_ok
    } else {
        offset <= f.start_offset && timestamp <= f.start_timestamp && nonce_ok
    }
}

/// The fixed-size part of a frame.
#[derive(Debug, Clone, Copy)]
pub struct RecordHeader {
    pub offset: u64,
    pub timestamp: i64,
    pub nonce: Option<u128>,
    pub length: u32,
}

/// The header of the frame at `pos`, when the buffer holds one there.
pub open spec fn header_at(b: Seq<u8>, pos: int) -> Option<RecordHeader> {
    if 0 <= pos && pos + 36 <= b.len() {
        let n = le_value(window(b, pos + 16, 16));
        Some(
            RecordHeader {
                offset: le_value(window(b, pos, 8)) as u64,
                timestamp: signed_of(le_value(window(b, pos + 8, 8)), 64) as i64,
                nonce: if n == u128::MAX {
                    None
                } else {
                    Some(n as u128)
                },
                length: le_value(window(b, pos + 32, 4)) as u32,
            },
        )
    } else {
        None
    }
}

/// The record a header and its value make.
pub open spec fn record_of(h: RecordHeader, value: Seq<u8>) -> RecordView {
    RecordView { offset: h.offset, timestamp: h.timestamp, nonce: h.nonce, value }
}

/// Walks the frames forward from `pos`, adding those that pass, until `found` is full or
/// the buffer ends. `None` where a frame is cut short; else what was found and whether the
/// walk reached the end of the buffer.
pub open spec fn scan_forward(
    b: Seq<u8>,
    pos: int,
    found: Seq<RecordView>,
    f: RecordFilter,
    cont: u64,
) -> Option<(Seq<RecordView>, bool)>
    decreases b.len() - pos,
{
    if pos >= b.len() || found.len() >= f.max_size {
        Some((found, pos == b.len()))
    } else {
        match header_at(b, pos) {
            None => None,
            Some(h) => {
                let end = pos + 36 + h.length + 4;
                if end > b.len() {
                    None
                } else {
                    let keep = h.offset >= cont && in_range(
                        h.offset,
                        h.timestamp,
                        h.nonce,
                        f,
                        found.len() > 0,
                    );
                    let found2 = if keep {
                        found.push(record_of(h, window(b, pos + 36, h.length as int)))
                    } else {
                        found
                    };
                    scan_forward(b, end, found2, f, cont)
                }
            },
        }
    }
}

/// Walks the frames backward from the frame that ends at `end`, by their trailing
/// lengths, adding those that pass, until `found` is full or the buffer's start is
/// reached. `None` where a frame is malformed.
pub open spec fn scan_backward(
    b: Seq<u8>,
    end: int,
    found: Seq<RecordView>,
    f: RecordFilter,
    cont: u64,
) -> Option<(Seq<RecordView>, bool)>
    decreases end,
{
    if end <= 0 || found.len() >= f.max_size {
        Some((found, end == 0))
    } else if end < 4 || end > b.len() {
        None
    } else {
        let t = le_value(window(b, end - 4, 4));
        if t + 4 > end {
            None
        } else {
            let start = end - 4 - t;
            match header_at(b, start) {
                None => None,
                Some(h) => if h.length + 36 != t {
                    None
                } else {
                    let keep = h.offset <= cont && in_range(
                        h.offset,
                        h.timestamp,
                        h.nonce,
                        f,
                        found.len() > 0,
                    );
                    let found2 = if keep {
                        found.push(record_of(h, window(b, start + 36, h.length as int)))
                    } else {
                        found
                    };
                    scan_backward(b, start, found2, f, cont)
                },
            }
        }
    }
}

/// The walk of a whole object in the filter's direction.
pub open spec fn scan(b: Seq<u8>, found: Seq<RecordView>, f: RecordFilter, cont: u64) -> Option<
    (Seq<RecordView>, bool),
> {
    if f.direction == Direction::Forwards {
        scan_forward(b, 0, found, f, cont)
    } else {
        scan_backward(b, b.len() as int, found, f, cont)
    }
}

/// Whether a record passes the filter.
fn record_in_range(header: &RecordHeader, filter: &RecordFilter, found_first_match: bool) -> (r:
    bool)
    ensures
        r == in_range(header.offset, header.timestamp, header.nonce, *filter, found_first_match),
{
    match filter.direction {
        Direction::Forwards => {
            if header.offset < filter.start_offset {
                return false;
            }
            if header.timestamp < filter.start_timestamp {
                return false;
            }
            match header.nonce {
                None => {
                    if filter.defined && !found_first_match {
                        return false;
                    }
                },
                Some(record_nonce) => {
                    if record_nonce < filter.start_nonce {
                        return false;
                    }
                },
            }
        },
        Direction::Backwards => {
            if header.offset > filter.start_offset {
                return false;
            }
            if header.timestamp > filter.start_timestamp {
                return false;
            }
            match header.nonce {
                None => {
                    if filter.defined && !found_first_match {
                        return false;
                    }
                },
                Some(record_nonce) => {
                    if record_nonce > filter.start_nonce {
                        return false;
                    }
                },
            }
        },
    }
    true
}

impl RecordHeader {
    /// Reads the header of the frame at `pos`.
    pub fn deserialize(buffer: &[u8], pos: usize) -> (r: Result<RecordHeader, StoreError>)
        ensures
            r is Ok <==> header_at(buffer@, pos as int) is Some,
            r matches Ok(h) ==> header_at(buffer@, pos as int) == Some(h),
            r matches Err(e) ==> e is BadData,
    {
        if pos > buffer.len() || buffer.len() - pos < HEADER_SIZE {
            return Err(StoreError::BadData(message("record header")));
        }
        let offset = match read_u64(buffer, pos) {
            Ok(v) => v,
            Err(e) => return Err(e),
        };
        let timestamp = match read_i64(buffer, pos + 8) {
            Ok(v) => v,
            Err(e) => return Err(e),
        };
        let raw_nonce = match read_u128(buffer, pos + 16) {
            Ok(v) => v,
            Err(e) => return Err(e),
        };
        let nonce = if raw_nonce == u128::MAX {
            None
        } else {
            Some(raw_nonce)
        };
        let length = match read_u32(buffer, pos + 32) {
            Ok(v) => v,
            Err(e) => return Err(e),
        };
        Ok(RecordHeader { offset, timestamp, nonce, length })
    }
}

/// Reads the records of one object in the filter's direction and appends to `records`
/// those that pass the filter and lie at or beyond `continuation_offset`, until
/// `records` holds `max_size` of them. Returns whether the whole object was read.
pub fn deserialize_and_filter_records(
    buffer: &Vec<u8>,
    records: &mut Vec<Record>,
    filter: &RecordFilter,
    continuation_offset: u64,
) -> (r: Result<bool, StoreError>)
    ensures
        r is Ok <==> scan(buffer@, record_views(old(records)@), *filter, continuation_offset) is Some,
        r matches Ok(full) ==> scan(buffer@, record_views(old(records)@), *filter, continuation_offset)
            == Some((record_views(final(records)@), full)),
        r matches Err(e) ==> e is BadData,
{
    let len = buffer.len();
    match filter.direction {
        Direction::Forwards => {
            let mut pos: usize = 0;
            while pos < len && (records.len() as u64) < filter.max_size
                invariant
                    len == buffer@.len(),
                    pos <= len,
                    filter.direction == Direction::Forwards,
                    scan_forward(buffer@, 0, record_views(old(records)@), *filter, continuation_offset)
                        == scan_forward(buffer@, pos as int, record_views(records@), *filter, continuation_offset),
                decreases len - pos,
            {
                let header = match RecordHeader::deserialize(buffer.as_slice(), pos) {
                    Ok(h) => h,
                    Err(e) => return Err(e),
                };
                let room: usize = len - pos;
                if room < HEADER_SIZE + 4 || header.length as usize > room - HEADER_SIZE - 4 {
                    return Err(StoreError::BadData(message("record frame")));
                }
                let ghost found = record_views(records@);
                if header.offset >= continuation_offset && record_in_range(
                    &header,
                    filter,
                    records.len() > 0,
                ) {
                    let value = read_bytes_copy(buffer.as_slice(), pos + HEADER_SIZE, header.length as usize);
                    records.push(Record {
                        offset: header.offset,
                        timestamp: header.timestamp,
                        nonce: header.nonce,
                        value,
                    });
                    assert(record_views(records@) =~= found.push(
                        record_of(header, window(buffer@, pos + 36, header.length as int)),
                    ));
                }
                pos = pos + HEADER_SIZE + header.length as usize + 4;
            }
            Ok(pos == len)
        },
        Direction::Backwards => {
            let mut pos: usize = len;
            while pos > 0 && (records.len() as u64) < filter.max_size
                invariant
                    len == buffer@.len(),
                    pos <= len,
                    filter.direction == Direction::Backwards,
                    scan_backward(buffer@, len as int, record_views(old(records)@), *filter, continuation_offset)
                        == scan_backward(buffer@, pos as int, record_views(records@), *filter, continuation_offset),
                decreases pos,
            {
                if pos < 4 {
                    return Err(StoreError::BadData(message("record trailer")));
                }
                let total_length = match read_u32(buffer.as_slice(), pos - 4) {
                    Ok(v) => v,
                    Err(e) => return Err(e),
                };
                if total_length as usize > pos - 4 {
                    return Err(StoreError::BadData(message("record trailer")));
                }
                let start: usize = pos - 4 - total_length as usize;
                let header = match RecordHeader::deserialize(buffer.as_slice(), start) {
                    Ok(h) => h,
                    Err(e) => return Err(e),
                };
                if header.length as u64 + 36 != total_length as u64 {
                    return Err(StoreError::BadData(message("record length")));
                }
                let ghost found = record_views(records@);
                if header.offset <= continuation_offset && record_in_range(
                    &header,
                    filter,
                    records.len() > 0,
                ) {
                    let value = read_bytes_copy(buffer.as_slice(), start + HEADER_SIZE, header.length as usize);
                    records.push(Record {
                        offset: header.offset,
                        timestamp: header.timestamp,
                        nonce: header.nonce,
                        value,
                    });
                    assert(record_views(records@) =~= found.push(
                        record_of(header, window(buffer@, start + 36, header.length as int)),
                    ));
                }
                pos = start;
            }
            Ok(pos == 0)
        },
    }
}

/// Whether the nonce filter keeps a record with `nonce` while `next` is the next
/// admissible nonce.
pub open spec fn accepts(nonce: Option<u128>, next: u128) -> bool {
    match nonce {
        None => true,
        Some(n) => n >= next,
    }
}

/// The next admissible nonce after the nonce filter has walked `s` from `next` on.
pub open spec fn nonce_after(s: Seq<Insertion>, next: u128) -> u128
    decreases s.len(),
{
    if s.len() == 0 {
        next
    } else {
        let m = nonce_after(s.drop_last(), next);
        match s.last().nonce {
            Some(n) => if n >= m {
                (n + 1) as u128
            } else {
                m
            },
            None => m,
        }
    }
}

/// The insertions that the nonce filter keeps of `s`, in order.
pub open spec fn nonce_kept(s: Seq<Insertion>, next: u128) -> Seq<Insertion>
    decreases s.len(),
{
    if s.len() == 0 {
        Seq::empty()
    } else {
        let k = nonce_kept(s.drop_last(), next);
        if accepts(s.last().nonce, nonce_after(s.drop_last(), next)) {
            k.push(s.last())
        } else {
            k
        }
    }
}

/// The first nonce that the nonce filter accepts in `s`.
pub open spec fn first_accepted(s: Seq<Insertion>, next: u128) -> Option<u128>
    decreases s.len(),
{
    if s.len() == 0 {
        None
    } else {
        let p = first_accepted(s.drop_last(), next);
        if p is Some {
            p
        } else {
            match s.last().nonce {
                Some(n) => if n >= nonce_after(s.drop_last(), next) {
                    Some(n)
                } else {
                    None
                },
                None => None,
            }
        }
    }
}

/// Whether no insertion carries the nonce that stands for "none".
pub open spec fn nonces_legal(s: Seq<Insertion>) -> bool {
    forall|i: int| 0 <= i < s.len() ==> #[trigger] s[i].nonce != Some(u128::MAX)
}

/// What the nonce filter keeps of a batch.
pub struct NonceFilterResult<'a> {
    pub records: Vec<&'a Insertion>,
    pub first_nonce: Option<u128>,
    pub first_potential_nonce: u128,
    pub next_nonce: u128,
}

/// Drops the insertions whose nonce is below the next admissible nonce, which each kept
/// nonce raises past itself; insertions without a nonce are kept.
pub fn nonce_filter<'a>(records: &'a Vec<Insertion>, next_nonce: u128) -> (r: NonceFilterResult<'a>)
    requires
        nonces_legal(records@),
    ensures
        deref_all(r.records@) == nonce_kept(records@, next_nonce),
        r.first_nonce == first_accepted(records@, next_nonce),
        r.first_potential_nonce == next_nonce,
        r.next_nonce == nonce_after(records@, next_nonce),
{
    let ghost s = records@;
    let mut kept: Vec<&'a Insertion> = Vec::new();
    let mut first_nonce: Option<u128> = None;
    let mut next: u128 = next_nonce;
    let mut i: usize = 0;
    assert(s.subrange(0, 0) =~= Seq::<Insertion>::empty());
    assert(deref_all(kept@) =~= Seq::<Insertion>::empty());
    while i < records.len()
        invariant
            s == records@,
            nonces_legal(s),
            i <= s.len(),
            deref_all(kept@) == nonce_kept(s.subrange(0, i as int), next_nonce),
            first_nonce == first_accepted(s.subrange(0, i as int), next_nonce),
            next == nonce_after(s.subrange(0, i as int), next_nonce),
        decreases s.len() - i,
    {
        let item: &'a Insertion = &records[i];
        let ghost t = s.subrange(0, i + 1);
        assert(t.drop_last() =~= s.subrange(0, i as int));
        assert(t.last() == s[i as int]);
        let ghost before = kept@;
        match item.nonce {
            Some(nonce) => {
                if nonce >= next {
                    if first_nonce.is_none() {
                        first_nonce = Some(nonce);
                    }
                    assert(s[i as int].nonce != Some(u128::MAX));
                    next = nonce + 1;
                    kept.push(item);
                    assert(deref_all(kept@) =~= deref_all(before).push(*item));
                }
            },
            None => {
                kept.push(item);
                assert(deref_all(kept@) =~= deref_all(before).push(*item));
            },
        }
        i = i + 1;
    }
    assert(s.subrange(0, i as int) =~= s);
    NonceFilterResult { records: kept, first_nonce, first_potential_nonce: next_nonce, next_nonce: next }
}

} // verus!
