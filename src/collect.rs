//! The decisions of the reader: positions and continuations, the search for the object
//! a read starts in, and the steps that stream records out of listed objects.
use vstd::prelude::*;
use crate::error::{message, StoreError};
use crate::keypath::{after_offset_name, key_path_matches, parse_path, KeyPath, KeyPathParser};
use crate::records::{deserialize_and_filter_records, scan, RecordFilter};
use crate::text::{chars_of, number_at, push_decimal, read_number, string_of};
use crate::{record_views, Direction, Page, Record, RecordView};

verus! {

broadcast use vstd::seq_lib::group_seq_properties;

/// Counters of the work a read did.
#[derive(Debug, Clone, Copy)]
pub struct ReadStats {
    pub list_operation_count: u64,
    pub read_operation_count: u64,
    pub read_size_total: u64,
    pub continuation_miss_count: u64,
}

/// Where a read goes on: the next offset to return and the first offset of the object
/// that a listing anchors on.
#[derive(Clone, Copy, Debug, PartialEq, Eq, Structural)]
pub struct Position {
    pub next_offset: u64,
    pub anchor_start_offset: u64,
}

impl Position {
    pub fn new(next_offset: u64, anchor_start_offset: u64) -> (r: Self)
        ensures
            r.next_offset == next_offset,
            r.anchor_start_offset == anchor_start_offset,
    {
        Self { next_offset, anchor_start_offset }
    }

    /// The name that a listing starts after to begin at the anchored object; an anchor of
    /// zero or one lists from the key's first object.
    pub fn get_start_from(&self, root_prefix: &str, keyspace: &str, key: &str) -> (r: String)
        ensures
            r@ == after_offset_name(
                root_prefix@,
                keyspace@,
                key@,
                if self.anchor_start_offset == 0 {
                    0
                } else {
                    (self.anchor_start_offset - 1) as u64
                },
            ),
    {
        let before: u64 = if self.anchor_start_offset == 0 {
            0
        } else {
            self.anchor_start_offset - 1
        };
        KeyPath::after_offset_prefix(root_prefix, keyspace, key, before)
    }
}

/// What a run of reads over objects came to.
pub struct CollectOutcome {
    /// the records that were read
    pub records: Vec<Record>,
    /// where reading goes on, `None` where the end was reached
    pub position: Option<Position>,
    /// whether an object that was expected had gone, so that the read should be retried
    pub requires_retry: bool,
}

/// The position after the records of a page: one past the last record returned in the
/// direction of the read, anchored on `anchor`; the old position where none was returned.
pub open spec fn position_after(
    records: Seq<Record>,
    last_position: Position,
    anchor: u64,
    direction: Direction,
) -> Position {
    if records.len() == 0 {
        last_position
    } else if direction == Direction::Forwards {
        Position { next_offset: (records.last().offset + 1) as u64, anchor_start_offset: anchor }
    } else {
        Position { next_offset: (records.last().offset - 1) as u64, anchor_start_offset: anchor }
    }
}

/// Whether the position after the last record exists: a forward read that returned
/// `u64::MAX` or a backward read that returned `0` has nowhere left to go.
pub open spec fn can_follow(records: Seq<Record>, direction: Direction) -> bool {
    records.len() == 0 || (direction == Direction::Forwards && records.last().offset < u64::MAX)
        || (direction == Direction::Backwards && records.last().offset > 0)
}

/// The continuation text of a position: `f` or `b`, then `:<next_offset>:<anchor>`.
pub open spec fn continuation_text(direction: Direction, p: Position) -> Seq<char> {
    seq![if direction == Direction::Forwards { 'f' } else { 'b' }, ':'] + crate::text::decimal(
        p.next_offset as nat,
    ) + seq![':'] + crate::text::decimal(p.anchor_start_offset as nat)
}

/// The direction and position a continuation text states, where it is well formed.
pub open spec fn parse_continuation_spec(s: Seq<char>) -> Option<(Direction, Position)> {
    if s.len() >= 2 && (s[0] == 'f' || s[0] == 'b') && s[1] == ':' {
        match number_at(s, 2) {
            None => None,
            Some((a, i)) => if i < s.len() && s[i] == ':' {
                match number_at(s, i + 1) {
                    None => None,
                    Some((b, j)) => if j == s.len() && a <= u64::MAX && b <= u64::MAX {
                        Some(
                            (
                                if s[0] == 'f' {
                                    Direction::Forwards
                                } else {
                                    Direction::Backwards
                                },
                                Position { next_offset: a as u64, anchor_start_offset: b as u64 },
                            ),
                        )
                    } else {
                        None
                    },
                }
            } else {
                None
            },
        }
    } else {
        None
    }
}

impl CollectOutcome {
    /// The end of a read: no position to go on from.
    pub fn finished(records: Vec<Record>) -> (r: Self)
        ensures
            r.records@ == records@,
            r.position is None,
            !r.requires_retry,
    {
        Self { records, position: None, requires_retry: false }
    }

    /// A full page: reading goes on after its last record.
    pub fn progress(records: Vec<Record>, last_position: &Position, anchor_start_offset: u64, direction: Direction) -> (r: Self)
        requires
            can_follow(records@, direction),
        ensures
            r.records@ == records@,
            r.position == Some(position_after(records@, *last_position, anchor_start_offset, direction)),
            !r.requires_retry,
    {
        let position = Self::position_after(&records, last_position, anchor_start_offset, direction);
        Self { records, position: Some(position), requires_retry: false }
    }

    /// A page cut short because an expected object had gone: reading goes on after its
    /// last record, and the read should be retried.
    pub fn missing(records: Vec<Record>, last_position: &Position, anchor_start_offset: u64, direction: Direction) -> (r: Self)
        requires
            can_follow(records@, direction),
        ensures
            r.records@ == records@,
            r.position == Some(position_after(records@, *last_position, anchor_start_offset, direction)),
            r.requires_retry,
    {
        let position = Self::position_after(&records, last_position, anchor_start_offset, direction);
        Self { records, position: Some(position), requires_retry: true }
    }

    fn position_after(records: &Vec<Record>, last_position: &Position, anchor_start_offset: u64, direction: Direction) -> (r: Position)
        requires
            can_follow(records@, direction),
        ensures
            r == position_after(records@, *last_position, anchor_start_offset, direction),
    {
        if records.len() == 0 {
            *last_position
        } else {
            let last = records[records.len() - 1].offset;
            match direction {
                Direction::Forwards => Position::new(last + 1, anchor_start_offset),
                Direction::Backwards => Position::new(last - 1, anchor_start_offset),
            }
        }
    }

    /// The continuation text of the outcome's position, where it has one.
    pub fn continuation(&self, direction: Direction) -> (r: Option<String>)
        ensures
            self.position is None ==> r is None,
            self.position matches Some(p) ==> r matches Some(s) && s@ == continuation_text(direction, p),
    {
        match &self.position {
            None => None,
            Some(p) => {
                let mut out: Vec<char> = Vec::new();
                match direction {
                    Direction::Forwards => out.push('f'),
                    Direction::Backwards => out.push('b'),
                }
                out.push(':');
                push_decimal(&mut out, p.next_offset as u128);
                out.push(':');
                push_decimal(&mut out, p.anchor_start_offset as u128);
                assert(out@ =~= continuation_text(direction, *p));
                Some(string_of(&out))
            },
        }
    }
}

/// Reads continuation texts.
pub struct ContinuationParser {}

impl ContinuationParser {
    pub fn new() -> Self {
        ContinuationParser {  }
    }

    /// The direction and position of a continuation text; `InvalidContinuation` where
    /// it is not one.
    pub fn parse(&self, s: &str) -> (r: Result<(Direction, Position), StoreError>)
        ensures
            parse_continuation_spec(s@) matches Some(v) ==> r == Ok::<(Direction, Position), StoreError>(v),
            parse_continuation_spec(s@) is None ==> r matches Err(StoreError::InvalidContinuation(_)),
    {
        let cs = chars_of(s);
        let n = cs.len();
        if n < 2 || !(cs[0] == 'f' || cs[0] == 'b') || cs[1] != ':' {
            return Err(StoreError::InvalidContinuation(message("continuation")));
        }
        let (a, i) = match read_number(&cs, 2) {
            Some(x) => x,
            None => return Err(StoreError::InvalidContinuation(message("continuation"))),
        };
        if i >= n || cs[i] != ':' {
            return Err(StoreError::InvalidContinuation(message("continuation")));
        }
        let (b, j) = match read_number(&cs, i + 1) {
            Some(x) => x,
            None => return Err(StoreError::InvalidContinuation(message("continuation"))),
        };
        if j != n || a > u64::MAX as u128 || b > u64::MAX as u128 {
            return Err(StoreError::InvalidContinuation(message("continuation")));
        }
        let direction = if cs[0] == 'f' {
            Direction::Forwards
        } else {
            Direction::Backwards
        };
        Ok((direction, Position::new(a as u64, b as u64)))
    }
}

/// The first object of the page, from index `i` on, that parses and matches the filter.
pub open spec fn first_match_from(page: Seq<String>, i: int, f: RecordFilter) -> Option<KeyPath>
    decreases page.len() - i,
{
    if i < 0 || i >= page.len() {
        None
    } else {
        match parse_path(page[i]@) {
            Some(kp) => if key_path_matches(kp, f) {
                Some(kp)
            } else {
                first_match_from(page, i + 1, f)
            },
            None => first_match_from(page, i + 1, f),
        }
    }
}

/// The last object among the first `n` of the page that parses and matches the filter.
pub open spec fn last_match_before(page: Seq<String>, n: int, f: RecordFilter) -> Option<KeyPath>
    decreases n,
{
    if n <= 0 || n > page.len() {
        None
    } else {
        match parse_path(page[n - 1]@) {
            Some(kp) => if key_path_matches(kp, f) {
                Some(kp)
            } else {
                last_match_before(page, n - 1, f)
            },
            None => last_match_before(page, n - 1, f),
        }
    }
}

/// Where a read starts within a listed page: forward, at the first matching object;
/// backward, at the last offset of the last matching object.
pub open spec fn start_in_page(page: Seq<String>, f: RecordFilter) -> Option<Position> {
    if f.direction == Direction::Forwards {
        match first_match_from(page, 0, f) {
            Some(kp) => Some(Position { next_offset: kp.first_offset, anchor_start_offset: kp.first_offset }),
            None => None,
        }
    } else {
        match last_match_before(page, page.len() as int, f) {
            Some(kp) => Some(Position { next_offset: kp.last_offset, anchor_start_offset: kp.first_offset }),
            None => None,
        }
    }
}

/// Where a read starts within a listed page, where it starts there at all.
pub fn find_start_from_in_page(page_list: &Vec<String>, filter: &RecordFilter, key_path_parser: &KeyPathParser) -> (r: Option<Position>)
    ensures
        r == start_in_page(page_list@, *filter),
{
    match filter.direction {
        Direction::Forwards => {
            let mut i: usize = 0;
            while i < page_list.len()
                invariant
                    i <= page_list@.len(),
                    filter.direction == Direction::Forwards,
                    first_match_from(page_list@, 0, *filter) == first_match_from(page_list@, i as int, *filter),
                decreases page_list@.len() - i,
            {
                match key_path_parser.parse(page_list[i].as_str()) {
                    Some(kp) => {
                        if kp.matches(filter) {
                            return Some(Position::new(kp.first_offset, kp.first_offset));
                        }
                    },
                    None => {},
                }
                i = i + 1;
            }
            None
        },
        Direction::Backwards => {
            let mut n: usize = page_list.len();
            while n > 0
                invariant
                    n <= page_list@.len(),
                    filter.direction == Direction::Backwards,
                    last_match_before(page_list@, page_list@.len() as int, *filter) == last_match_before(page_list@, n as int, *filter),
                decreases n,
            {
                match key_path_parser.parse(page_list[n - 1].as_str()) {
                    Some(kp) => {
                        if kp.matches(filter) {
                            return Some(Position::new(kp.last_offset, kp.first_offset));
                        }
                    },
                    None => {},
                }
                n = n - 1;
            }
            None
        },
    }
}

/// What follows one object of a read.
pub enum CollectStep {
    /// the read is over, with this outcome
    Done(CollectOutcome),
    /// the read goes on with these records from this position
    Next(Vec<Record>, Position),
}

/// Whether a forward read finds a gap before the listed object: the record it expects
/// next lies before the object, whose first records were compacted away since.
pub open spec fn forward_gap(cur: Position, kp: KeyPath) -> bool {
    cur.next_offset < kp.first_offset
}

/// The records a forward read holds after reading `buffer`, and whether it read it
/// whole, where the object is well formed.
pub open spec fn read_object(
    records: Seq<Record>,
    buffer: Seq<u8>,
    f: RecordFilter,
    cont: u64,
) -> Option<(Seq<RecordView>, bool)> {
    scan(buffer, record_views(records), f, cont)
}

/// The bytes of an object, where it was there.
pub open spec fn opt_bytes(c: Option<Vec<u8>>) -> Option<Seq<u8>> {
    match c {
        Some(b) => Some(b@),
        None => None,
    }
}

/// What one object of a forward read from `cur` comes to. A gap or a missing object
/// ends the read for a retry; a malformed object is an error; a record at `u64::MAX`, an
/// object that ends there, or a full page ends the read; else it moves to the next object,
/// anchored on this one where it was not read whole.
pub open spec fn forward_step_spec(
    records: Seq<Record>,
    cur: Position,
    kp: KeyPath,
    contents: Option<Seq<u8>>,
    f: RecordFilter,
    r: Result<CollectStep, StoreError>,
) -> bool {
    if forward_gap(cur, kp) || contents is None {
        match r {
            Ok(CollectStep::Done(o)) => o.requires_retry && o.records@ == records && o.position
                == Some(position_after(records, cur, kp.first_offset, Direction::Forwards)),
            _ => false,
        }
    } else {
        match read_object(records, contents->Some_0, f, cur.next_offset) {
            None => r is Err,
            Some((found, full)) => {
                let anchor = if full && kp.last_offset < u64::MAX {
                    (kp.last_offset + 1) as u64
                } else {
                    kp.first_offset
                };
                match r {
                    Ok(CollectStep::Done(o)) => record_views(o.records@) == found && !o.requires_retry
                        && ((found.len() > 0 && found.last().offset == u64::MAX && o.position is None)
                        || (found.len() < f.max_size && kp.last_offset == u64::MAX && o.position is None)
                        || (found.len() >= f.max_size && (found.len() == 0 || found.last().offset
                        < u64::MAX) && o.position == Some(
                        position_after(o.records@, cur, anchor, Direction::Forwards),
                    ))),
                    Ok(CollectStep::Next(rs, p)) => record_views(rs@) == found && found.len() < f.max_size
                        && (found.len() == 0 || found.last().offset < u64::MAX) && kp.last_offset
                        < u64::MAX && p == (Position {
                        next_offset: (kp.last_offset + 1) as u64,
                        anchor_start_offset: anchor,
                    }),
                    Err(_) => false,
                }
            },
        }
    }
}

/// One object of a forward read from `cur`: `contents` is the object's body, or `None`
/// where it had gone.
pub fn forward_object_step(
    records: Vec<Record>,
    cur: &Position,
    key_path: &KeyPath,
    contents: Option<Vec<u8>>,
    filter: &RecordFilter,
) -> (r: Result<CollectStep, StoreError>)
    requires
        filter.direction == Direction::Forwards,
        can_follow(records@, Direction::Forwards),
    ensures
        forward_step_spec(records@, *cur, *key_path, opt_bytes(contents), *filter, r),
{
    if cur.next_offset < key_path.first_offset {
        return Ok(CollectStep::Done(CollectOutcome::missing(records, cur, key_path.first_offset, Direction::Forwards)));
    }
    let buffer = match contents {
        None => return Ok(CollectStep::Done(CollectOutcome::missing(records, cur, key_path.first_offset, Direction::Forwards))),
        Some(b) => b,
    };
    let mut records = records;
    let read_fully = match deserialize_and_filter_records(&buffer, &mut records, filter, cur.next_offset) {
        Ok(v) => v,
        Err(e) => return Err(e),
    };
    let n = records.len();
    if n > 0 && records[n - 1].offset == u64::MAX {
        return Ok(CollectStep::Done(CollectOutcome::finished(records)));
    }
    if (n as u64) < filter.max_size && key_path.last_offset == u64::MAX {
        return Ok(CollectStep::Done(CollectOutcome::finished(records)));
    }
    let anchor: u64 = if read_fully && key_path.last_offset < u64::MAX {
        key_path.last_offset + 1
    } else {
        key_path.first_offset
    };
    if n as u64 >= filter.max_size {
        return Ok(CollectStep::Done(CollectOutcome::progress(records, cur, anchor, Direction::Forwards)));
    }
    Ok(CollectStep::Next(records, Position::new(key_path.last_offset + 1, anchor)))
}

/// What one object of a backward read from `cur` comes to, `start` being where the read
/// began. No listed object ends the read for a retry from `start`, dropping what was read;
/// an object that ends before the expected offset, or a missing one, ends it for a retry; a
/// malformed object is an error; nothing read, a record at either end of the offset space,
/// an object read whole with no offset before it, or a full page ends the read; else it
/// moves to the object that this one links back to.
pub open spec fn backward_step_spec(
    records: Seq<Record>,
    cur: Position,
    start: Position,
    listed: Option<KeyPath>,
    contents: Option<Seq<u8>>,
    f: RecordFilter,
    r: Result<CollectStep, StoreError>,
) -> bool {
    match listed {
        None => match r {
            Ok(CollectStep::Done(o)) => o.requires_retry && o.records@.len() == 0 && o.position
                == Some(start),
            _ => false,
        },
        Some(kp) => if cur.next_offset > kp.last_offset || contents is None {
            let anchor = if cur.next_offset > kp.last_offset {
                kp.prior_start_offset
            } else {
                kp.first_offset
            };
            match r {
                Ok(CollectStep::Done(o)) => o.requires_retry && o.records@ == records && o.position
                    == Some(position_after(records, cur, anchor, Direction::Backwards)),
                _ => false,
            }
        } else {
            match read_object(records, contents->Some_0, f, cur.next_offset) {
                None => r is Err,
                Some((found, full)) => {
                    let anchor = if full {
                        kp.prior_start_offset
                    } else {
                        kp.first_offset
                    };
                    let ends = found.len() == 0 || found.last().offset == u64::MAX
                        || found.last().offset == 0 || cur.next_offset == 0 || kp.first_offset == 0
                        || (kp.first_offset == 1 && full);
                    match r {
                        Ok(CollectStep::Done(o)) => record_views(o.records@) == found
                            && !o.requires_retry && ((ends && o.position is None) || (!ends
                            && found.len() >= f.max_size && o.position == Some(
                            position_after(o.records@, cur, anchor, Direction::Backwards),
                        ))),
                        Ok(CollectStep::Next(rs, p)) => record_views(rs@) == found && !ends
                            && found.len() < f.max_size && p == (Position {
                            next_offset: (kp.first_offset - 1) as u64,
                            anchor_start_offset: anchor,
                        }),
                        Err(_) => false,
                    }
                },
            }
        },
    }
}

/// One object of a backward read from `cur`: `listed` is the object that the anchored
/// listing found first, where it found one, and `contents` its body, or `None` where it
/// had gone.
pub fn backward_object_step(
    records: Vec<Record>,
    cur: &Position,
    start: &Position,
    listed: Option<KeyPath>,
    contents: Option<Vec<u8>>,
    filter: &RecordFilter,
) -> (r: Result<CollectStep, StoreError>)
    requires
        filter.direction == Direction::Backwards,
        can_follow(records@, Direction::Backwards),
    ensures
        backward_step_spec(records@, *cur, *start, listed, opt_bytes(contents), *filter, r),
{
    let key_path = match listed {
        None => {
            let empty: Vec<Record> = Vec::new();
            return Ok(CollectStep::Done(CollectOutcome::missing(empty, start, 0, Direction::Backwards)));
        },
        Some(kp) => kp,
    };
    if cur.next_offset > key_path.last_offset {
        return Ok(CollectStep::Done(CollectOutcome::missing(records, cur, key_path.prior_start_offset, Direction::Backwards)));
    }
    let buffer = match contents {
        None => return Ok(CollectStep::Done(CollectOutcome::missing(records, cur, key_path.first_offset, Direction::Backwards))),
        Some(b) => b,
    };
    let mut records = records;
    let read_fully = match deserialize_and_filter_records(&buffer, &mut records, filter, cur.next_offset) {
        Ok(v) => v,
        Err(e) => return Err(e),
    };
    let anchor: u64 = if read_fully {
        key_path.prior_start_offset
    } else {
        key_path.first_offset
    };
    let n = records.len();
    if n == 0 || records[n - 1].offset == u64::MAX || records[n - 1].offset == 0
        || cur.next_offset == 0 || key_path.first_offset == 0 || (key_path.first_offset == 1
        && read_fully) {
        return Ok(CollectStep::Done(CollectOutcome::finished(records)));
    }
    if n as u64 >= filter.max_size {
        return Ok(CollectStep::Done(CollectOutcome::progress(records, cur, anchor, Direction::Backwards)));
    }
    Ok(CollectStep::Next(records, Position::new(key_path.first_offset - 1, anchor)))
}

/// How the search for a read's start goes on after a listed page.
pub enum SearchStep {
    /// the read starts here, or nowhere
    Found(Option<Position>),
    /// the start lies beyond this page
    Continue,
}

/// The outcome of a page that a search for the start listed: an empty page has no start;
/// the only page, or one that the start lies in (forward: its last object matches;
/// backward: its last object does not), is searched; else the search goes on. `BadData`
/// where the page's last object names no data object.
pub open spec fn page_search_spec(page: Seq<String>, has_more: bool, f: RecordFilter, r: Result<SearchStep, StoreError>) -> bool {
    if page.len() == 0 {
        r matches Ok(SearchStep::Found(p)) && p is None
    } else if !has_more {
        r matches Ok(SearchStep::Found(p)) && p == start_in_page(page, f)
    } else {
        match parse_path(page.last()@) {
            None => r matches Err(StoreError::BadData(_)),
            Some(kp) => if key_path_matches(kp, f) == (f.direction == Direction::Forwards) {
                r matches Ok(SearchStep::Found(p)) && p == start_in_page(page, f)
            } else {
                r matches Ok(SearchStep::Continue)
            },
        }
    }
}

/// Decides on a page that a search for the start listed; `has_more` says whether the
/// listing goes on after it.
pub fn page_search_step(
    page: &Vec<String>,
    has_more: bool,
    filter: &RecordFilter,
    key_path_parser: &KeyPathParser,
) -> (r: Result<SearchStep, StoreError>)
    ensures
        page_search_spec(page@, has_more, *filter, r),
{
    let n = page.len();
    if n == 0 {
        return Ok(SearchStep::Found(None));
    }
    if !has_more {
        return Ok(SearchStep::Found(find_start_from_in_page(page, filter, key_path_parser)));
    }
    let last = match key_path_parser.parse_or_error(page[n - 1].as_str()) {
        Ok(kp) => kp,
        Err(e) => return Err(e),
    };
    let forwards = match filter.direction {
        Direction::Forwards => true,
        Direction::Backwards => false,
    };
    if last.matches(filter) == forwards {
        Ok(SearchStep::Found(find_start_from_in_page(page, filter, key_path_parser)))
    } else {
        Ok(SearchStep::Continue)
    }
}

/// How a search between two offsets goes on.
pub enum RangeStep {
    /// the read starts here, or nowhere
    Found(Option<Position>),
    /// search the offsets from the first to the second
    Range(u64, u64),
}

/// Decides, once the last object of the key is known, where a search whose first page
/// was `first_page` goes on: no last object means no start; backward, a matching last
/// object is the start; else the search runs between the first page's last object and the
/// key's last object.
pub fn after_last_path(
    last_path: &Option<String>,
    first_page: &Vec<String>,
    filter: &RecordFilter,
    key_path_parser: &KeyPathParser,
) -> (r: Result<RangeStep, StoreError>)
    requires
        first_page@.len() > 0,
    ensures
        last_path is None ==> (r matches Ok(RangeStep::Found(p)) && p is None),
        last_path matches Some(l) ==> (match parse_path(l@) {
            None => r matches Err(StoreError::BadData(_)),
            Some(lk) => if filter.direction == Direction::Backwards && key_path_matches(lk, *filter) {
                r matches Ok(RangeStep::Found(p)) && p == Some(Position {
                    next_offset: filter.start_offset,
                    anchor_start_offset: lk.first_offset,
                })
            } else {
                match parse_path(first_page@.last()@) {
                    None => r matches Err(StoreError::BadData(_)),
                    Some(fk) => r matches Ok(RangeStep::Range(lo, hi)) && lo == fk.first_offset && hi
                        == lk.last_offset,
                }
            },
        }),
{
    let last = match last_path {
        None => return Ok(RangeStep::Found(None)),
        Some(l) => match key_path_parser.parse_or_error(l.as_str()) {
            Ok(kp) => kp,
            Err(e) => return Err(e),
        },
    };
    if filter.direction == Direction::Backwards && last.matches(filter) {
        return Ok(RangeStep::Found(Some(Position::new(filter.start_offset, last.first_offset))));
    }
    let first = match key_path_parser.parse_or_error(first_page[first_page.len() - 1].as_str()) {
        Ok(kp) => kp,
        Err(e) => return Err(e),
    };
    Ok(RangeStep::Range(first.first_offset, last.last_offset))
}

/// The offset halfway between two offsets, rounded down.
pub fn midpoint(min: u64, max: u64) -> (r: u64)
    ensures
        r == (min + max) / 2,
{
    ((min as u128 + max as u128) / 2) as u64
}

/// Decides on the page listed after offset `next_check` while searching between `min`
/// and `max`. Forward: an empty page, or one whose first object matches, puts the start
/// before it; one whose last object does not match puts it after, or nowhere where the
/// listing ends there; else the start is in the page. Backward: an empty page puts the
/// start before it; one whose last object matches puts it after, or in the page where the
/// listing ends there; else one whose first object matches holds it, and otherwise it lies
/// before the page's first object.
pub open spec fn probe_spec(
    min: u64,
    max: u64,
    next_check: u64,
    page: Seq<String>,
    has_more: bool,
    f: RecordFilter,
    r: Result<RangeStep, StoreError>,
) -> bool {
    if page.len() == 0 {
        r matches Ok(RangeStep::Range(lo, hi)) && lo == min && hi == next_check
    } else {
        match (parse_path(page[0]@), parse_path(page.last()@)) {
            (Some(first), Some(last)) => if f.direction == Direction::Forwards {
                if key_path_matches(first, f) {
                    r matches Ok(RangeStep::Range(lo, hi)) && lo == min && hi == next_check
                } else if !key_path_matches(last, f) {
                    if has_more {
                        r matches Ok(RangeStep::Range(lo, hi)) && lo == last.last_offset && hi == max
                    } else {
                        r matches Ok(RangeStep::Found(p)) && p is None
                    }
                } else {
                    r matches Ok(RangeStep::Found(p)) && p == start_in_page(page, f)
                }
            } else {
                if key_path_matches(last, f) {
                    if has_more {
                        r matches Ok(RangeStep::Range(lo, hi)) && lo == next_check && hi == max
                    } else {
                        r matches Ok(RangeStep::Found(p)) && p == start_in_page(page, f)
                    }
                } else if key_path_matches(first, f) {
                    r matches Ok(RangeStep::Found(p)) && p == start_in_page(page, f)
                } else {
                    r matches Ok(RangeStep::Range(lo, hi)) && lo == min && hi == first.first_offset
                }
            },
            _ => r matches Err(StoreError::BadData(_)),
        }
    }
}

/// One probe of the search for a read's start between `min` and `max`.
pub fn probe_step(
    min: u64,
    max: u64,
    next_check: u64,
    page: &Vec<String>,
    has_more: bool,
    filter: &RecordFilter,
    key_path_parser: &KeyPathParser,
) -> (r: Result<RangeStep, StoreError>)
    ensures
        probe_spec(min, max, next_check, page@, has_more, *filter, r),
{
    let n = page.len();
    if n == 0 {
        return Ok(RangeStep::Range(min, next_check));
    }
    let first = match key_path_parser.parse_or_error(page[0].as_str()) {
        Ok(kp) => kp,
        Err(e) => return Err(e),
    };
    let last = match key_path_parser.parse_or_error(page[n - 1].as_str()) {
        Ok(kp) => kp,
        Err(e) => return Err(e),
    };
    match filter.direction {
        Direction::Forwards => {
            if first.matches(filter) {
                Ok(RangeStep::Range(min, next_check))
            } else if !last.matches(filter) {
                if has_more {
                    Ok(RangeStep::Range(last.last_offset, max))
                } else {
                    Ok(RangeStep::Found(None))
                }
            } else {
                Ok(RangeStep::Found(find_start_from_in_page(page, filter, key_path_parser)))
            }
        },
        Direction::Backwards => {
            if last.matches(filter) {
                if has_more {
                    Ok(RangeStep::Range(next_check, max))
                } else {
                    Ok(RangeStep::Found(find_start_from_in_page(page, filter, key_path_parser)))
                }
            } else if first.matches(filter) {
                Ok(RangeStep::Found(find_start_from_in_page(page, filter, key_path_parser)))
            } else {
                Ok(RangeStep::Range(min, first.first_offset))
            }
        },
    }
}

/// Whether a read came back with nothing but the need of a retry.
pub open spec fn retry_empty(o: CollectOutcome) -> bool {
    o.requires_retry && o.records@.len() == 0
}

/// Whether a read came back with nothing but the need of a retry.
pub fn needs_retry(o: &CollectOutcome) -> (r: bool)
    ensures
        r == retry_empty(*o),
{
    o.requires_retry && o.records.len() == 0
}

/// The page a read returns. A read that came back with nothing but the need of a retry
/// ends the stream: no continuation, so that a reader does not page on empty pages.
pub fn page_of(keyspace: &str, key: &str, outcome: CollectOutcome, direction: Direction) -> (r: Page)
    ensures
        r.keyspace@ == keyspace@,
        r.key@ == key@,
        r.records@ == outcome.records@,
        retry_empty(outcome) ==> r.continuation is None,
        !retry_empty(outcome) && outcome.position is None ==> r.continuation is None,
        !retry_empty(outcome) ==> (outcome.position matches Some(p) ==> (r.continuation matches Some(c)
            && c@ == continuation_text(direction, p))),
{
    let continuation = if needs_retry(&outcome) {
        None
    } else {
        outcome.continuation(direction)
    };
    Page {
        keyspace: message(keyspace),
        key: message(key),
        records: outcome.records,
        continuation,
    }
}

/// The end of a forward read whose listing ran out. Where it listed no object at all,
/// the object its position anchors on has gone, compacted into one that starts earlier:
/// the read is missing and asks for a retry. Else the key's last object was read and the
/// read is finished.
pub fn forward_listing_end(records: Vec<Record>, cur: &Position, listed_any: bool) -> (r: CollectOutcome)
    requires
        can_follow(records@, Direction::Forwards),
    ensures
        r.records@ == records@,
        !listed_any ==> r.requires_retry && r.position == Some(
            position_after(records@, *cur, cur.anchor_start_offset, Direction::Forwards),
        ),
        listed_any ==> !r.requires_retry && r.position is None,
{
    if listed_any {
        CollectOutcome::finished(records)
    } else {
        CollectOutcome::missing(records, cur, cur.anchor_start_offset, Direction::Forwards)
    }
}

/// The outcome of a probe once the search range is known not to narrow: a range equal to
/// the one probed holds no start that further probes could find.
pub fn settle_probe(min: u64, max: u64, step: RangeStep) -> (r: RangeStep)
    ensures
        (step matches RangeStep::Range(lo, hi) && lo == min && hi == max) ==> r matches RangeStep::Found(None),
        !(step matches RangeStep::Range(lo, hi) && lo == min && hi == max) ==> r == step,
{
    match step {
        RangeStep::Range(lo, hi) => if lo == min && hi == max {
            RangeStep::Found(None)
        } else {
            RangeStep::Range(lo, hi)
        },
        RangeStep::Found(p) => RangeStep::Found(p),
    }
}

/// Whether a read that resumed from a continuation must fall back to searching for its
/// start: the object the continuation anchors on had gone.
pub fn resume_failed(o: &CollectOutcome) -> (r: bool)
    ensures
        r == o.requires_retry,
{
    o.requires_retry
}

/// Whether a page read is tried again after `attempts` attempts: once only, where the
/// read came back with nothing but the need of a retry. A second such read ends the
/// stream, so that a reader does not page on empty pages.
pub fn retry_page_read(o: &CollectOutcome, attempts: u64) -> (r: bool)
    ensures
        r == (retry_empty(*o) && attempts < 2),
{
    needs_retry(o) && attempts < 2
}

} // verus!
