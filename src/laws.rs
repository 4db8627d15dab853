//! Properties of the store that hold across its functions.
use vstd::prelude::*;
use crate::buffer::{
    le_bytes, le_value, lemma_le_round_trip, lemma_pow256_values, pow256, signed_of,
    unsigned_of, window,
};
use crate::records::{
    frame, frames_fit, header_at, in_range, insert_frames, nonce_after, nonce_bits, nonce_kept,
    nonces_legal, record_of, scan_backward, scan_forward, serialized, stored_records, RecordFilter,
};
use crate::cache::CachedKey;
use crate::time::stamped;
use crate::writer::{batch_key_path, exhausts_offsets, listing_state, state_after_append};
use crate::collect::{page_search_spec, SearchStep};
use crate::error::StoreError;
use crate::keypath::{KeyPath, Watermark};
use crate::{Direction, Insertion, RecordView};


verus! {

broadcast use vstd::seq_lib::group_seq_properties;

/// The nonce filter keeps nonces in strictly increasing order: every kept nonce lies at or
/// above the next admissible nonce the filter started from and below the one it ends
/// with, and a later kept nonce is larger than an earlier one. Records without a nonce
/// keep their place among them.
pub proof fn lemma_kept_nonces_increase(s: Seq<Insertion>, next: u128)
    requires
        nonces_legal(s),
    ensures
        next <= nonce_after(s, next),
        forall|i: int|
            0 <= i < nonce_kept(s, next).len() && (#[trigger] nonce_kept(s, next)[i]).nonce is Some
                ==> next <= nonce_kept(s, next)[i].nonce->Some_0 < nonce_after(s, next),
        forall|i: int, j: int|
            0 <= i < j < nonce_kept(s, next).len() && (#[trigger] nonce_kept(s, next)[i]).nonce is Some
                && (#[trigger] nonce_kept(s, next)[j]).nonce is Some ==> nonce_kept(s, next)[i].nonce->Some_0
                < nonce_kept(s, next)[j].nonce->Some_0,
    decreases s.len(),
{
    if s.len() > 0 {
        let p = s.drop_last();
        assert(nonces_legal(p)) by {
            assert forall|i: int| 0 <= i < p.len() implies #[trigger] p[i].nonce != Some(u128::MAX) by {
                assert(p[i] == s[i]);
            }
        }
        lemma_kept_nonces_increase(p, next);
        assert(s.last() == s[s.len() - 1]);
        let k = nonce_kept(p, next);
        let m = nonce_after(p, next);
        if crate::records::accepts(s.last().nonce, m) {
            assert(nonce_kept(s, next) == k.push(s.last()));
            let kk = nonce_kept(s, next);
            assert forall|i: int| 0 <= i < k.len() implies #[trigger] kk[i] == k[i] by {}
        }
    }
}

/// A record the nonce filter meets with a nonce below the next admissible nonce is
/// dropped: appending a batch whose nonces all lie below the key's next nonce writes
/// nothing and leaves the next nonce where it was.
pub proof fn lemma_stale_nonces_dropped(s: Seq<Insertion>, next: u128)
    requires
        forall|i: int| 0 <= i < s.len() ==> ((#[trigger] s[i]).nonce matches Some(n) && n < next),
    ensures
        nonce_kept(s, next).len() == 0,
        nonce_after(s, next) == next,
    decreases s.len(),
{
    if s.len() > 0 {
        let p = s.drop_last();
        assert forall|i: int| 0 <= i < p.len() implies ((#[trigger] p[i]).nonce matches Some(n) && n < next) by {
            assert(p[i] == s[i]);
        }
        lemma_stale_nonces_dropped(p, next);
        assert(s.last() == s[s.len() - 1]);
    }
}

/// The key's next offset after a written batch is one past the offset of the batch's last
/// record, which is also the last offset its object's name states.
pub proof fn lemma_next_offset_follows_batch(kinfo: CachedKey, records: Seq<Insertion>, now: i64)
    requires
        nonce_kept(records, kinfo.metadata.next_nonce).len() > 0,
        !exhausts_offsets(kinfo, records),
    ensures
        ({
            let kept = nonce_kept(records, kinfo.metadata.next_nonce);
            let stored = stored_records(kept, kinfo.metadata.next_offset as int, now);
            &&& batch_key_path(kinfo, records, now).last_offset == stored.last().offset
            &&& state_after_append(kinfo, records, now).metadata.next_offset == stored.last().offset + 1
            &&& stored[0].offset == kinfo.metadata.next_offset
        }),
{
}

proof fn lemma_signed_round_trip(v: i64)
    ensures
        signed_of(unsigned_of(v as int, 64), 64) == v,
        unsigned_of(v as int, 64) < pow256(8),
{
    lemma_pow256_values();
}

/// The frames of a batch from the `k`th on, flattened.
spec fn tail_bytes(fr: Seq<Seq<u8>>, k: int) -> Seq<u8> {
    fr.subrange(k, fr.len() as int).flatten()
}

proof fn lemma_split_at(fr: Seq<Seq<u8>>, k: int)
    requires
        0 <= k < fr.len(),
    ensures
        fr.flatten() == fr.subrange(0, k).flatten() + fr[k] + tail_bytes(fr, k + 1),
{
    vstd::seq_lib::lemma_flatten_concat(fr.subrange(0, k), fr.subrange(k, fr.len() as int));
    assert(fr.subrange(0, k) + fr.subrange(k, fr.len() as int) =~= fr);
    let t = fr.subrange(k, fr.len() as int);
    assert(t.drop_first() =~= fr.subrange(k + 1, fr.len() as int));
    assert(t.first() == fr[k]);
}

proof fn lemma_prefix_step(fr: Seq<Seq<u8>>, k: int)
    requires
        0 <= k < fr.len(),
    ensures
        fr.subrange(0, k + 1).flatten() == fr.subrange(0, k).flatten() + fr[k],
{
    assert(fr.subrange(0, k + 1) =~= fr.subrange(0, k).push(fr[k]));
    fr.subrange(0, k).lemma_flatten_push(fr[k]);
}

/// Whether a filter admits every record: forward, from the first position, with room for
/// `n` more records than `found` holds.
pub open spec fn admits_all(f: RecordFilter, found: Seq<RecordView>, n: int) -> bool {
    &&& f.direction == Direction::Forwards
    &&& !f.defined
    &&& f.start_offset == 0
    &&& f.start_timestamp == i64::MIN
    &&& f.start_nonce == 0
    &&& f.max_size >= found.len() + n
}

proof fn lemma_frame_header(a: Seq<u8>, fr: Seq<u8>, c: Seq<u8>, ins: Insertion, offset: u64, now: i64)
    requires
        fr == frame(offset, stamped(ins, now), ins.nonce, ins.record@),
        ins.record@.len() + 36 <= u32::MAX,
        ins.nonce != Some(u128::MAX),
    ensures
        fr.len() == ins.record@.len() + 40,
        header_at(a + fr + c, a.len() as int) == Some(
            crate::records::RecordHeader {
                offset,
                timestamp: stamped(ins, now),
                nonce: ins.nonce,
                length: ins.record@.len() as u32,
            },
        ),
        window(a + fr + c, a.len() as int + 36, ins.record@.len() as int) == ins.record@,
{
    let b = a + fr + c;
    let p = a.len() as int;
    let ts = stamped(ins, now);
    let n = ins.record@.len();
    lemma_pow256_values();
    lemma_signed_round_trip(ts);
    let f0 = le_bytes(offset as nat, 8);
    let f1 = le_bytes(unsigned_of(ts as int, 64), 8);
    let f2 = le_bytes(nonce_bits(ins.nonce) as nat, 16);
    let f3 = le_bytes(n, 4);
    let f5 = le_bytes(n + 36, 4);
    assert(fr == f0 + f1 + f2 + f3 + ins.record@ + f5);
    assert(window(b, p, 8) =~= f0);
    assert(window(b, p + 8, 8) =~= f1);
    assert(window(b, p + 16, 16) =~= f2);
    assert(window(b, p + 32, 4) =~= f3);
    assert(window(b, p + 36, n as int) =~= ins.record@);
    lemma_le_round_trip(offset as nat, 8);
    lemma_le_round_trip(unsigned_of(ts as int, 64), 8);
    lemma_le_round_trip(nonce_bits(ins.nonce) as nat, 16);
    lemma_le_round_trip(n, 4);
}

proof fn lemma_scan_batch_from(s: Seq<Insertion>, first: u64, now: i64, f: RecordFilter, found: Seq<RecordView>, cont: u64, k: int)
    requires
        cont <= first,
        frames_fit(s),
        nonces_legal(s),
        first + s.len() <= u64::MAX,
        admits_all(f, found, s.len() as int),
        0 <= k <= s.len(),
    ensures
        scan_forward(
            serialized(s, first as int, now),
            insert_frames(s, first as int, now).subrange(0, k).flatten().len() as int,
            found + stored_records(s, first as int, now).subrange(0, k),
            f,
            cont,
        ) == Some((found + stored_records(s, first as int, now), true)),
    decreases s.len() - k,
{
    let fr = insert_frames(s, first as int, now);
    let b = serialized(s, first as int, now);
    let st = stored_records(s, first as int, now);
    if k == s.len() {
        assert(fr.subrange(0, k) =~= fr);
        assert(st.subrange(0, k) =~= st);
    } else {
        lemma_split_at(fr, k);
        lemma_prefix_step(fr, k);
        let a = fr.subrange(0, k).flatten();
        let c = tail_bytes(fr, k + 1);
        assert(s[k].record@.len() + 36 <= u32::MAX);
        assert(s[k].nonce != Some(u128::MAX));
        lemma_frame_header(a, fr[k], c, s[k], (first + k) as u64, now);
        let found_k = found + st.subrange(0, k);
        let h = header_at(b, a.len() as int)->Some_0;
        assert(in_range(h.offset, h.timestamp, h.nonce, f, found_k.len() > 0));
        assert(found_k.push(record_of(h, window(b, a.len() as int + 36, h.length as int))) =~= found + st.subrange(0, k + 1));
        lemma_scan_batch_from(s, first, now, f, found, cont, k + 1);
    }
}

/// Reading forward from the first position through the body of a written batch, with a
/// continuation offset at or below the batch's first offset, returns exactly the batch's
/// records, in order, at the offsets `first`, `first + 1`, ... that
/// the batch was written with, and reads the body whole.
pub proof fn lemma_serialized_round_trip(s: Seq<Insertion>, first: u64, now: i64, f: RecordFilter, found: Seq<RecordView>, cont: u64)
    requires
        cont <= first,
        frames_fit(s),
        nonces_legal(s),
        first + s.len() <= u64::MAX,
        admits_all(f, found, s.len() as int),
    ensures
        scan_forward(serialized(s, first as int, now), 0, found, f, cont) == Some(
            (found + stored_records(s, first as int, now), true),
        ),
{
    lemma_scan_batch_from(s, first, now, f, found, cont, 0);
    assert(insert_frames(s, first as int, now).subrange(0, 0) =~= Seq::<Seq<u8>>::empty());
    assert(stored_records(s, first as int, now).subrange(0, 0) =~= Seq::<RecordView>::empty());
    assert(found + Seq::<RecordView>::empty() =~= found);
}

proof fn lemma_header_prefix(a: Seq<u8>, b: Seq<u8>, p: int)
    requires
        0 <= p,
        p + 36 <= a.len(),
    ensures
        header_at(a + b, p) == header_at(a, p),
{
    assert(window(a + b, p, 8) =~= window(a, p, 8));
    assert(window(a + b, p + 8, 8) =~= window(a, p + 8, 8));
    assert(window(a + b, p + 16, 16) =~= window(a, p + 16, 16));
    assert(window(a + b, p + 32, 4) =~= window(a, p + 32, 4));
}

proof fn lemma_header_shift(a: Seq<u8>, b: Seq<u8>, q: int)
    requires
        0 <= q,
    ensures
        header_at(a + b, a.len() + q) == header_at(b, q),
{
    if q + 36 <= b.len() {
        assert(window(a + b, a.len() + q, 8) =~= window(b, q, 8));
        assert(window(a + b, a.len() + q + 8, 8) =~= window(b, q + 8, 8));
        assert(window(a + b, a.len() + q + 16, 16) =~= window(b, q + 16, 16));
        assert(window(a + b, a.len() + q + 32, 4) =~= window(b, q + 32, 4));
    }
}

proof fn lemma_scan_shift(a: Seq<u8>, b: Seq<u8>, q: int, found: Seq<RecordView>, f: RecordFilter, cont: u64)
    requires
        0 <= q <= b.len(),
    ensures
        scan_forward(a + b, a.len() + q, found, f, cont) == scan_forward(b, q, found, f, cont),
    decreases b.len() - q,
{
    let ab = a + b;
    lemma_header_shift(a, b, q);
    if q < b.len() && found.len() < f.max_size {
        match header_at(b, q) {
            Some(h) => {
                let end = q + 36 + h.length + 4;
                if end <= b.len() {
                    assert(window(ab, a.len() + q + 36, h.length as int) =~= window(b, q + 36, h.length as int));
                    let keep = h.offset >= cont && in_range(h.offset, h.timestamp, h.nonce, f, found.len() > 0);
                    let found2 = if keep {
                        found.push(record_of(h, window(b, q + 36, h.length as int)))
                    } else {
                        found
                    };
                    lemma_scan_shift(a, b, end, found2, f, cont);
                }
            },
            None => {},
        }
    }
}

proof fn lemma_scan_prefix(a: Seq<u8>, b: Seq<u8>, p: int, found: Seq<RecordView>, f: RecordFilter, cont: u64)
    requires
        0 <= p <= a.len(),
        scan_forward(a, p, found, f, cont) is Some,
    ensures
        scan_forward(a, p, found, f, cont) matches Some((r, full)) && (if full {
            scan_forward(a + b, p, found, f, cont) == scan_forward(a + b, a.len() as int, r, f, cont)
        } else {
            scan_forward(a + b, p, found, f, cont) == Some((r, false))
        }),
    decreases a.len() - p,
{
    let ab = a + b;
    if p >= a.len() || found.len() >= f.max_size {
        if p < a.len() {
            assert(p < ab.len());
        }
    } else {
        let h = header_at(a, p)->Some_0;
        lemma_header_prefix(a, b, p);
        let end = p + 36 + h.length + 4;
        assert(window(ab, p + 36, h.length as int) =~= window(a, p + 36, h.length as int));
        let keep = h.offset >= cont && in_range(h.offset, h.timestamp, h.nonce, f, found.len() > 0);
        let found2 = if keep {
            found.push(record_of(h, window(a, p + 36, h.length as int)))
        } else {
            found
        };
        lemma_scan_prefix(a, b, end, found2, f, cont);
    }
}

/// Reading forward through two object bodies one after the other, carrying what was
/// found, returns what reading their concatenation returns: merging objects by
/// concatenating their bodies, as compaction does, leaves a forward read unchanged. Where
/// the first body already fills the read, the concatenation stops at the same place.
pub proof fn lemma_concatenated_read(a: Seq<u8>, b: Seq<u8>, found: Seq<RecordView>, f: RecordFilter, cont: u64)
    requires
        scan_forward(a, 0, found, f, cont) is Some,
    ensures
        scan_forward(a, 0, found, f, cont) matches Some((r, full)) && (if full {
            scan_forward(a + b, 0, found, f, cont) == scan_forward(b, 0, r, f, cont)
        } else {
            scan_forward(a + b, 0, found, f, cont) == Some((r, false))
        }),
{
    lemma_scan_prefix(a, b, 0, found, f, cont);
    let r = scan_forward(a, 0, found, f, cont)->Some_0.0;
    lemma_scan_shift(a, b, 0, r, f, cont);
}

/// The bodies of batches written one after the other from offset `first`, concatenated.
pub open spec fn batches_body(bs: Seq<Seq<Insertion>>, first: int, now: i64) -> Seq<u8>
    decreases bs.len(),
{
    if bs.len() == 0 {
        Seq::empty()
    } else {
        serialized(bs[0], first, now) + batches_body(bs.drop_first(), first + bs[0].len(), now)
    }
}

/// The records of batches written one after the other from offset `first`.
pub open spec fn batches_records(bs: Seq<Seq<Insertion>>, first: int, now: i64) -> Seq<RecordView>
    decreases bs.len(),
{
    if bs.len() == 0 {
        Seq::empty()
    } else {
        stored_records(bs[0], first, now) + batches_records(bs.drop_first(), first + bs[0].len(), now)
    }
}

/// The number of records of the batches.
pub open spec fn batches_len(bs: Seq<Seq<Insertion>>) -> int
    decreases bs.len(),
{
    if bs.len() == 0 {
        0
    } else {
        bs[0].len() + batches_len(bs.drop_first())
    }
}

/// Whether every batch fits the frame format and carries legal nonces.
pub open spec fn batches_fit(bs: Seq<Seq<Insertion>>) -> bool {
    forall|i: int| 0 <= i < bs.len() ==> frames_fit(#[trigger] bs[i]) && nonces_legal(bs[i])
}

proof fn lemma_batches_len_nonneg(bs: Seq<Seq<Insertion>>)
    ensures
        batches_len(bs) >= 0,
    decreases bs.len(),
{
    if bs.len() > 0 {
        lemma_batches_len_nonneg(bs.drop_first());
    }
}

/// Reading forward from the first position through the objects of batches appended one
/// after the other, or through the object that compaction merged them into, returns the
/// records of every batch in append order, at dense offsets from `first`.
pub proof fn lemma_batches_read_back(bs: Seq<Seq<Insertion>>, first: u64, now: i64, f: RecordFilter, found: Seq<RecordView>)
    requires
        batches_fit(bs),
        first + batches_len(bs) <= u64::MAX,
        admits_all(f, found, batches_len(bs)),
    ensures
        scan_forward(batches_body(bs, first as int, now), 0, found, f, 0) == Some(
            (found + batches_records(bs, first as int, now), true),
        ),
    decreases bs.len(),
{
    if bs.len() == 0 {
        assert(found + Seq::<RecordView>::empty() =~= found);
    } else {
        let rest = bs.drop_first();
        assert(batches_fit(rest)) by {
            assert forall|i: int| 0 <= i < rest.len() implies frames_fit(#[trigger] rest[i]) && nonces_legal(rest[i]) by {
                assert(rest[i] == bs[i + 1]);
            }
        }
        assert(frames_fit(bs[0]) && nonces_legal(bs[0]));
        lemma_batches_len_nonneg(rest);
        let a = serialized(bs[0], first as int, now);
        let b = batches_body(rest, first + bs[0].len(), now);
        lemma_serialized_round_trip(bs[0], first, now, f, found, 0);
        lemma_concatenated_read(a, b, found, f, 0);
        let found2 = found + stored_records(bs[0], first as int, now);
        assert(found2.len() == found.len() + bs[0].len());
        lemma_batches_read_back(rest, (first + bs[0].len()) as u64, now, f, found2);
        assert(found2 + batches_records(rest, first + bs[0].len(), now) =~= found + batches_records(bs, first as int, now));
    }
}

proof fn lemma_back_prefix(a: Seq<u8>, b: Seq<u8>, p: int, found: Seq<RecordView>, f: RecordFilter, cont: u64)
    requires
        0 <= p <= a.len(),
    ensures
        scan_backward(a + b, p, found, f, cont) == scan_backward(a, p, found, f, cont),
    decreases p,
{
    let ab = a + b;
    if p > 0 && found.len() < f.max_size && p >= 4 {
        assert(window(ab, p - 4, 4) =~= window(a, p - 4, 4));
        let t = le_value(window(a, p - 4, 4));
        if t + 4 <= p {
            let start = p - 4 - t;
            if start + 36 <= a.len() {
                lemma_header_prefix(a, b, start);
                match header_at(a, start) {
                    Some(h) => {
                        if h.length + 36 == t {
                            assert(window(ab, start + 36, h.length as int) =~= window(a, start + 36, h.length as int));
                            let keep = h.offset <= cont && in_range(h.offset, h.timestamp, h.nonce, f, found.len() > 0);
                            let found2 = if keep {
                                found.push(record_of(h, window(a, start + 36, h.length as int)))
                            } else {
                                found
                            };
                            lemma_back_prefix(a, b, start, found2, f, cont);
                        }
                    },
                    None => {},
                }
            } else {
                assert(header_at(a, start) is None);
                if start + 36 <= ab.len() {
                    assert(t < 36);
                }
            }
        }
    }
}

proof fn lemma_back_shift(a: Seq<u8>, b: Seq<u8>, q: int, found: Seq<RecordView>, f: RecordFilter, cont: u64)
    requires
        0 <= q <= b.len(),
        scan_backward(b, q, found, f, cont) is Some,
    ensures
        scan_backward(b, q, found, f, cont) matches Some((r, full)) && (if full {
            scan_backward(a + b, a.len() + q, found, f, cont) == scan_backward(a + b, a.len() as int, r, f, cont)
        } else {
            scan_backward(a + b, a.len() + q, found, f, cont) == Some((r, false))
        }),
    decreases q,
{
    let ab = a + b;
    let e = a.len() + q;
    if q > 0 && found.len() < f.max_size {
        assert(window(ab, e - 4, 4) =~= window(b, q - 4, 4));
        let t = le_value(window(b, q - 4, 4));
        let start = q - 4 - t;
        lemma_header_shift(a, b, start);
        let h = header_at(b, start)->Some_0;
        assert(window(ab, a.len() + start + 36, h.length as int) =~= window(b, start + 36, h.length as int));
        let keep = h.offset <= cont && in_range(h.offset, h.timestamp, h.nonce, f, found.len() > 0);
        let found2 = if keep {
            found.push(record_of(h, window(b, start + 36, h.length as int)))
        } else {
            found
        };
        lemma_back_shift(a, b, start, found2, f, cont);
    }
}

/// Reading backward through two object bodies, the later one first, carrying what was
/// found, returns what reading their concatenation backward returns: merging objects by
/// concatenating their bodies, as compaction does, leaves a backward read unchanged too.
pub proof fn lemma_concatenated_read_backward(a: Seq<u8>, b: Seq<u8>, found: Seq<RecordView>, f: RecordFilter, cont: u64)
    requires
        scan_backward(b, b.len() as int, found, f, cont) is Some,
    ensures
        scan_backward(b, b.len() as int, found, f, cont) matches Some((r, full)) && (if full {
            scan_backward(a + b, (a + b).len() as int, found, f, cont) == scan_backward(a, a.len() as int, r, f, cont)
        } else {
            scan_backward(a + b, (a + b).len() as int, found, f, cont) == Some((r, false))
        }),
{
    lemma_back_shift(a, b, b.len() as int, found, f, cont);
    let r = scan_backward(b, b.len() as int, found, f, cont)->Some_0.0;
    lemma_back_prefix(a, b, a.len() as int, r, f, cont);
}

/// A key with no data object has no start in either direction: the search for a read's
/// start finds none in an empty listing, whether or not the listing says more follows, so
/// the read returns an empty page with no continuation.
pub proof fn lemma_empty_key_has_no_start(has_more: bool, f: RecordFilter, r: Result<SearchStep, StoreError>)
    requires
        page_search_spec(Seq::empty(), has_more, f, r),
    ensures
        r matches Ok(SearchStep::Found(p)) && p is None,
{
}

/// The next offset the writer resumes a key with, read back from its listing, is one past
/// the last offset of the key's last object, and its next nonce is that object's.
pub proof fn lemma_resumed_state_follows_last_object(s: Seq<KeyPath>, watermark: Option<Watermark>, threshold: u64)
    requires
        s.len() > 0,
        s.last().last_offset < u64::MAX,
    ensures
        listing_state(s, watermark, threshold).metadata.next_offset == s.last().last_offset + 1,
        listing_state(s, watermark, threshold).metadata.next_nonce == s.last().next_nonce,
        listing_state(s, watermark, threshold).prior_start_offset == s.last().first_offset,
{
}

} // verus!
