//! Fixed-width integers read from and appended to byte buffers.
use vstd::prelude::*;
use crate::error::StoreError;

verus! {

/// `256` raised to `n`.
pub open spec fn pow256(n: nat) -> nat
    decreases n,
{
    if n == 0 {
        1
    } else {
        256 * pow256((n - 1) as nat)
    }
}

/// The unsigned value of bytes stored least significant first.
pub open spec fn le_value(s: Seq<u8>) -> nat
    decreases s.len(),
{
    if s.len() == 0 {
        0
    } else {
        s[0] as nat + 256 * le_value(s.drop_first())
    }
}

/// The unsigned value of bytes stored most significant first.
pub open spec fn be_value(s: Seq<u8>) -> nat
    decreases s.len(),
{
    if s.len() == 0 {
        0
    } else {
        be_value(s.drop_last()) * 256 + s.last() as nat
    }
}

/// The `n` bytes that store `v` least significant first.
pub open spec fn le_bytes(v: nat, n: nat) -> Seq<u8> {
    Seq::new(n, |i: int| ((v / pow256(i as nat)) % 256) as u8)
}

/// An unsigned value of `bits` bits read as two's complement.
pub open spec fn signed_of(v: nat, bits: nat) -> int {
    if v < pow2(bits) / 2 {
        v as int
    } else {
        v - pow2(bits)
    }
}

/// The two's complement bits of a signed value, as an unsigned value of `bits` bits.
pub open spec fn unsigned_of(v: int, bits: nat) -> nat {
    if v < 0 {
        (v + pow2(bits)) as nat
    } else {
        v as nat
    }
}

/// `2` raised to `n`.
pub open spec fn pow2(n: nat) -> nat
    decreases n,
{
    if n == 0 {
        1
    } else {
        2 * pow2((n - 1) as nat)
    }
}

/// The `n` bytes at `position`, when the buffer holds them.
pub open spec fn window(b: Seq<u8>, position: int, n: int) -> Seq<u8> {
    b.subrange(position, position + n)
}

/// Whether the buffer holds `n` bytes from `position` on.
pub open spec fn fits(b: Seq<u8>, position: int, n: int) -> bool {
    position + n <= b.len()
}

pub proof fn lemma_pow256_values()
    ensures
        pow256(1) == 256,
        pow256(2) == 65536,
        pow256(4) == 0x1_0000_0000,
        pow256(8) == 0x1_0000_0000_0000_0000,
        pow256(16) == 0x1_0000_0000_0000_0000_0000_0000_0000_0000,
        pow2(8) == 256,
        pow2(16) == 65536,
        pow2(32) == 0x1_0000_0000,
        pow2(64) == 0x1_0000_0000_0000_0000,
{
    reveal_with_fuel(pow256, 17);
    reveal_with_fuel(pow2, 65);
}

pub proof fn lemma_pow256_pos(n: nat)
    ensures
        pow256(n) >= 1,
    decreases n,
{
    if n > 0 {
        lemma_pow256_pos((n - 1) as nat);
    }
}

pub proof fn lemma_le_value_bound(s: Seq<u8>)
    ensures
        le_value(s) < pow256(s.len()),
    decreases s.len(),
{
    if s.len() > 0 {
        lemma_le_value_bound(s.drop_first());
        let r = le_value(s.drop_first());
        let p = pow256((s.len() - 1) as nat);
        assert(s[0] as nat + 256 * r < 256 * p) by (nonlinear_arith)
            requires
                r < p,
                s[0] < 256,
        ;
    }
}

pub proof fn lemma_be_value_bound(s: Seq<u8>)
    ensures
        be_value(s) < pow256(s.len()),
    decreases s.len(),
{
    if s.len() > 0 {
        lemma_be_value_bound(s.drop_last());
        let r = be_value(s.drop_last());
        let p = pow256((s.len() - 1) as nat);
        assert(r * 256 + s.last() < 256 * p) by (nonlinear_arith)
            requires
                r < p,
                s.last() < 256,
        ;
    }
}

/// Bytes written least significant first read back as the value they store.
pub proof fn lemma_le_round_trip(v: nat, n: nat)
    requires
        v < pow256(n),
    ensures
        le_value(le_bytes(v, n)) == v,
    decreases n,
{
    let s = le_bytes(v, n);
    if n == 0 {
        assert(v == 0);
    } else {
        let w = v / 256;
        assert(w < pow256((n - 1) as nat)) by (nonlinear_arith)
            requires
                v < 256 * pow256((n - 1) as nat),
                w == v / 256,
        ;
        lemma_le_round_trip(w, (n - 1) as nat);
        assert forall|i: int| 0 <= i < n - 1 implies #[trigger] s.drop_first()[i] == le_bytes(
            w,
            (n - 1) as nat,
        )[i] by {
            lemma_pow256_pos(i as nat);
            vstd::arithmetic::div_mod::lemma_div_denominator(v as int, 256, pow256(i as nat) as int);
            assert(pow256((i + 1) as nat) == 256 * pow256(i as nat));
        }
        assert(s.drop_first() =~= le_bytes(w, (n - 1) as nat));
        assert(pow256(0) == 1);
        assert(v / 1 == v);
        assert(s[0] == (v % 256) as u8);
        assert(v == v % 256 + 256 * w) by (nonlinear_arith)
            requires
                w == v / 256,
        ;
    }
}

/// Reads `n` bytes at `position` as an unsigned value, least significant first.
fn read_le(buffer: &[u8], position: usize, n: usize) -> (r: u128)
    requires
        n <= 16,
        position + n <= buffer@.len(),
    ensures
        r == le_value(window(buffer@, position as int, n as int)),
{
    let mut v: u128 = 0;
    let mut i: usize = n;
    let len = buffer.len();
    proof {
        lemma_pow256_values();
    }
    while i > 0
        invariant
            len == buffer@.len(),
            i <= n <= 16,
            position + n <= buffer@.len(),
            v == le_value(buffer@.subrange(position + i, position + n)),
            pow256(16) == 0x1_0000_0000_0000_0000_0000_0000_0000_0000,
        decreases i,
    {
        let ghost s = buffer@.subrange(position + i - 1, position + n);
        assert(s.drop_first() =~= buffer@.subrange(position + i, position + n));
        proof {
            lemma_le_value_bound(buffer@.subrange(position + i, position + n));
            lemma_pow_mono((n - i) as nat, 15);
        }
        let b = buffer[position + i - 1];
        v = (b as u128) + 256 * v;
        i = i - 1;
    }
    v
}

/// Reads `n` bytes at `position` as an unsigned value, most significant first.
fn read_be(buffer: &[u8], position: usize, n: usize) -> (r: u128)
    requires
        n <= 16,
        position + n <= buffer@.len(),
    ensures
        r == be_value(window(buffer@, position as int, n as int)),
{
    let mut v: u128 = 0;
    let mut i: usize = 0;
    let len = buffer.len();
    proof {
        lemma_pow256_values();
    }
    while i < n
        invariant
            len == buffer@.len(),
            i <= n <= 16,
            position + n <= buffer@.len(),
            v == be_value(buffer@.subrange(position as int, position + i)),
            pow256(16) == 0x1_0000_0000_0000_0000_0000_0000_0000_0000,
        decreases n - i,
    {
        let ghost s = buffer@.subrange(position as int, position + i + 1);
        assert(s.drop_last() =~= buffer@.subrange(position as int, position + i));
        proof {
            lemma_be_value_bound(buffer@.subrange(position as int, position + i));
            lemma_pow_mono(i as nat, 15);
        }
        let b = buffer[position + i];
        v = v * 256 + (b as u128);
        i = i + 1;
    }
    v
}

proof fn lemma_pow_mono(a: nat, b: nat)
    requires
        a <= b,
    ensures
        pow256(a) <= pow256(b),
    decreases b,
{
    if a < b {
        lemma_pow_mono(a, (b - 1) as nat);
        lemma_pow256_pos((b - 1) as nat);
    }
}

/// Reads a little-endian `u16` at `position`.
pub fn read_u16(buffer: &[u8], position: usize) -> (r: Result<u16, StoreError>)
    ensures
        fits(buffer@, position as int, 2) <==> r is Ok,
        r matches Ok(v) ==> v == le_value(window(buffer@, position as int, 2)),
        r matches Err(e) ==> e is BadData,
{
    if position > buffer.len() || buffer.len() - position < 2 {
        return Err(StoreError::BadData(crate::error::message("read_u16")));
    }
    proof {
        lemma_le_value_bound(window(buffer@, position as int, 2));
        lemma_pow256_values();
    }
    Ok(read_le(buffer, position, 2) as u16)
}

/// Reads a little-endian `u32` at `position`.
pub fn read_u32(buffer: &[u8], position: usize) -> (r: Result<u32, StoreError>)
    ensures
        fits(buffer@, position as int, 4) <==> r is Ok,
        r matches Ok(v) ==> v == le_value(window(buffer@, position as int, 4)),
        r matches Err(e) ==> e is BadData,
{
    if position > buffer.len() || buffer.len() - position < 4 {
        return Err(StoreError::BadData(crate::error::message("read_u32")));
    }
    proof {
        lemma_le_value_bound(window(buffer@, position as int, 4));
        lemma_pow256_values();
    }
    Ok(read_le(buffer, position, 4) as u32)
}

/// Reads a little-endian `u64` at `position`.
pub fn read_u64(buffer: &[u8], position: usize) -> (r: Result<u64, StoreError>)
    ensures
        fits(buffer@, position as int, 8) <==> r is Ok,
        r matches Ok(v) ==> v == le_value(window(buffer@, position as int, 8)),
        r matches Err(e) ==> e is BadData,
{
    if position > buffer.len() || buffer.len() - position < 8 {
        return Err(StoreError::BadData(crate::error::message("read_u64")));
    }
    proof {
        lemma_le_value_bound(window(buffer@, position as int, 8));
        lemma_pow256_values();
    }
    Ok(read_le(buffer, position, 8) as u64)
}

/// Reads a little-endian `u128` at `position`.
pub fn read_u128(buffer: &[u8], position: usize) -> (r: Result<u128, StoreError>)
    ensures
        fits(buffer@, position as int, 16) <==> r is Ok,
        r matches Ok(v) ==> v == le_value(window(buffer@, position as int, 16)),
        r matches Err(e) ==> e is BadData,
{
    if position > buffer.len() || buffer.len() - position < 16 {
        return Err(StoreError::BadData(crate::error::message("read_u128")));
    }
    Ok(read_le(buffer, position, 16))
}

/// Reads a big-endian `u16` at `position`.
pub fn read_u16_be(buffer: &[u8], position: usize) -> (r: Result<u16, StoreError>)
    ensures
        fits(buffer@, position as int, 2) <==> r is Ok,
        r matches Ok(v) ==> v == be_value(window(buffer@, position as int, 2)),
        r matches Err(e) ==> e is BadData,
{
    if position > buffer.len() || buffer.len() - position < 2 {
        return Err(StoreError::BadData(crate::error::message("read_u16_be")));
    }
    proof {
        lemma_be_value_bound(window(buffer@, position as int, 2));
        lemma_pow256_values();
    }
    Ok(read_be(buffer, position, 2) as u16)
}

/// Reads a big-endian `u32` at `position`.
pub fn read_u32_be(buffer: &[u8], position: usize) -> (r: Result<u32, StoreError>)
    ensures
        fits(buffer@, position as int, 4) <==> r is Ok,
        r matches Ok(v) ==> v == be_value(window(buffer@, position as int, 4)),
        r matches Err(e) ==> e is BadData,
{
    if position > buffer.len() || buffer.len() - position < 4 {
        return Err(StoreError::BadData(crate::error::message("read_u32_be")));
    }
    proof {
        lemma_be_value_bound(window(buffer@, position as int, 4));
        lemma_pow256_values();
    }
    Ok(read_be(buffer, position, 4) as u32)
}

/// Reads a big-endian `u64` at `position`.
pub fn read_u64_be(buffer: &[u8], position: usize) -> (r: Result<u64, StoreError>)
    ensures
        fits(buffer@, position as int, 8) <==> r is Ok,
        r matches Ok(v) ==> v == be_value(window(buffer@, position as int, 8)),
        r matches Err(e) ==> e is BadData,
{
    if position > buffer.len() || buffer.len() - position < 8 {
        return Err(StoreError::BadData(crate::error::message("read_u64_be")));
    }
    proof {
        lemma_be_value_bound(window(buffer@, position as int, 8));
        lemma_pow256_values();
    }
    Ok(read_be(buffer, position, 8) as u64)
}

/// Reads a big-endian `u128` at `position`.
pub fn read_u128_be(buffer: &[u8], position: usize) -> (r: Result<u128, StoreError>)
    ensures
        fits(buffer@, position as int, 16) <==> r is Ok,
        r matches Ok(v) ==> v == be_value(window(buffer@, position as int, 16)),
        r matches Err(e) ==> e is BadData,
{
    if position > buffer.len() || buffer.len() - position < 16 {
        return Err(StoreError::BadData(crate::error::message("read_u128_be")));
    }
    Ok(read_be(buffer, position, 16))
}

/// Reinterprets an unsigned value of `bits` bits as two's complement.
fn to_signed(v: u128, bits: usize) -> (r: i64)
    requires
        bits == 8 || bits == 16 || bits == 32 || bits == 64,
        v < pow2(bits as nat),
    ensures
        r == signed_of(v as nat, bits as nat),
{
    proof {
        lemma_pow256_values();
    }
    if bits == 8 {
        if v < 128 { v as i64 } else { (v as i64) - 256 }
    } else if bits == 16 {
        if v < 32768 { v as i64 } else { (v as i64) - 65536 }
    } else if bits == 32 {
        if v < 0x8000_0000 { v as i64 } else { (v as i64) - 0x1_0000_0000 }
    } else {
        if v < 0x8000_0000_0000_0000 {
            v as i64
        } else {
            ((v as i128) - 0x1_0000_0000_0000_0000i128) as i64
        }
    }
}

/// Reads a `i8` at `position`.
pub fn read_i8(buffer: &[u8], position: usize) -> (r: Result<i8, StoreError>)
    ensures
        fits(buffer@, position as int, 1) <==> r is Ok,
        r matches Ok(v) ==> v == signed_of(le_value(window(buffer@, position as int, 1)), 8),
        r matches Err(e) ==> e is BadData,
{
    if position >= buffer.len() {
        return Err(StoreError::BadData(crate::error::message("read_i8")));
    }
    proof {
        lemma_le_value_bound(window(buffer@, position as int, 1));
        lemma_pow256_values();
    }
    Ok(to_signed(read_le(buffer, position, 1), 8) as i8)
}

/// Reads a little-endian `i16` at `position`.
pub fn read_i16(buffer: &[u8], position: usize) -> (r: Result<i16, StoreError>)
    ensures
        fits(buffer@, position as int, 2) <==> r is Ok,
        r matches Ok(v) ==> v == signed_of(le_value(window(buffer@, position as int, 2)), 16),
        r matches Err(e) ==> e is BadData,
{
    if position > buffer.len() || buffer.len() - position < 2 {
        return Err(StoreError::BadData(crate::error::message("read_i16")));
    }
    proof {
        lemma_le_value_bound(window(buffer@, position as int, 2));
        lemma_pow256_values();
    }
    Ok(to_signed(read_le(buffer, position, 2), 16) as i16)
}

/// Reads a little-endian `i32` at `position`.
pub fn read_i32(buffer: &[u8], position: usize) -> (r: Result<i32, StoreError>)
    ensures
        fits(buffer@, position as int, 4) <==> r is Ok,
        r matches Ok(v) ==> v == signed_of(le_value(window(buffer@, position as int, 4)), 32),
        r matches Err(e) ==> e is BadData,
{
    if position > buffer.len() || buffer.len() - position < 4 {
        return Err(StoreError::BadData(crate::error::message("read_i32")));
    }
    proof {
        lemma_le_value_bound(window(buffer@, position as int, 4));
        lemma_pow256_values();
    }
    Ok(to_signed(read_le(buffer, position, 4), 32) as i32)
}

/// Reads a little-endian `i64` at `position`.
pub fn read_i64(buffer: &[u8], position: usize) -> (r: Result<i64, StoreError>)
    ensures
        fits(buffer@, position as int, 8) <==> r is Ok,
        r matches Ok(v) ==> v == signed_of(le_value(window(buffer@, position as int, 8)), 64),
        r matches Err(e) ==> e is BadData,
{
    if position > buffer.len() || buffer.len() - position < 8 {
        return Err(StoreError::BadData(crate::error::message("read_i64")));
    }
    proof {
        lemma_le_value_bound(window(buffer@, position as int, 8));
        lemma_pow256_values();
    }
    Ok(to_signed(read_le(buffer, position, 8), 64))
}

/// Reads a `i8` at `position`; one byte has no order, so this equals `read_i8`.
pub fn read_i8_be(buffer: &[u8], position: usize) -> (r: Result<i8, StoreError>)
    ensures
        fits(buffer@, position as int, 1) <==> r is Ok,
        r matches Ok(v) ==> v == signed_of(be_value(window(buffer@, position as int, 1)), 8),
        r matches Err(e) ==> e is BadData,
{
    if position >= buffer.len() {
        return Err(StoreError::BadData(crate::error::message("read_i8_be")));
    }
    proof {
        lemma_be_value_bound(window(buffer@, position as int, 1));
        lemma_pow256_values();
    }
    Ok(to_signed(read_be(buffer, position, 1), 8) as i8)
}

/// Reads a big-endian `i16` at `position`.
pub fn read_i16_be(buffer: &[u8], position: usize) -> (r: Result<i16, StoreError>)
    ensures
        fits(buffer@, position as int, 2) <==> r is Ok,
        r matches Ok(v) ==> v == signed_of(be_value(window(buffer@, position as int, 2)), 16),
        r matches Err(e) ==> e is BadData,
{
    if position > buffer.len() || buffer.len() - position < 2 {
        return Err(StoreError::BadData(crate::error::message("read_i16_be")));
    }
    proof {
        lemma_be_value_bound(window(buffer@, position as int, 2));
        lemma_pow256_values();
    }
    Ok(to_signed(read_be(buffer, position, 2), 16) as i16)
}

/// Reads a big-endian `i32` at `position`.
pub fn read_i32_be(buffer: &[u8], position: usize) -> (r: Result<i32, StoreError>)
    ensures
        fits(buffer@, position as int, 4) <==> r is Ok,
        r matches Ok(v) ==> v == signed_of(be_value(window(buffer@, position as int, 4)), 32),
        r matches Err(e) ==> e is BadData,
{
    if position > buffer.len() || buffer.len() - position < 4 {
        return Err(StoreError::BadData(crate::error::message("read_i32_be")));
    }
    proof {
        lemma_be_value_bound(window(buffer@, position as int, 4));
        lemma_pow256_values();
    }
    Ok(to_signed(read_be(buffer, position, 4), 32) as i32)
}

/// Reads a big-endian `i64` at `position`.
pub fn read_i64_be(buffer: &[u8], position: usize) -> (r: Result<i64, StoreError>)
    ensures
        fits(buffer@, position as int, 8) <==> r is Ok,
        r matches Ok(v) ==> v == signed_of(be_value(window(buffer@, position as int, 8)), 64),
        r matches Err(e) ==> e is BadData,
{
    if position > buffer.len() || buffer.len() - position < 8 {
        return Err(StoreError::BadData(crate::error::message("read_i64_be")));
    }
    proof {
        lemma_be_value_bound(window(buffer@, position as int, 8));
        lemma_pow256_values();
    }
    Ok(to_signed(read_be(buffer, position, 8), 64))
}

/// Copies `length` bytes at `position`.
pub fn read_bytes_copy(buffer: &[u8], position: usize, length: usize) -> (r: Vec<u8>)
    requires
        position + length <= buffer@.len(),
    ensures
        r@ == window(buffer@, position as int, length as int),
{
    let mut out: Vec<u8> = Vec::with_capacity(length);
    let mut i: usize = 0;
    let len = buffer.len();
    while i < length
        invariant
            len == buffer@.len(),
            i <= length,
            position + length <= buffer@.len(),
            out@ == buffer@.subrange(position as int, position + i),
        decreases length - i,
    {
        out.push(buffer[position + i]);
        assert(out@ =~= buffer@.subrange(position as int, position + i + 1));
        i = i + 1;
    }
    out
}

/// Appends the `n` low bytes of `value`, least significant first.
fn append_le(buffer: &mut Vec<u8>, value: u128, n: usize)
    requires
        n <= 16,
    ensures
        final(buffer)@ == old(buffer)@ + le_bytes(value as nat, n as nat),
{
    let mut cur: u128 = value;
    let mut i: usize = 0;
    assert(pow256(0) == 1);
    assert(value as nat / 1 == value as nat);
    while i < n
        invariant
            i <= n,
            buffer@ == old(buffer)@ + le_bytes(value as nat, i as nat),
            cur == value as nat / pow256(i as nat),
        decreases n - i,
    {
        proof {
            lemma_pow256_pos(i as nat);
            vstd::arithmetic::div_mod::lemma_div_denominator(value as int, pow256(i as nat) as int, 256);
            assert(pow256((i + 1) as nat) == 256 * pow256(i as nat));
            assert(pow256(i as nat) * 256 == 256 * pow256(i as nat)) by (nonlinear_arith);
        }
        buffer.push((cur % 256) as u8);
        assert(buffer@ =~= old(buffer)@ + le_bytes(value as nat, (i + 1) as nat));
        cur = cur / 256;
        i = i + 1;
    }
}

/// Appends `value` as four bytes, least significant first.
pub fn append_u32(buffer: &mut Vec<u8>, value: u32)
    ensures
        final(buffer)@ == old(buffer)@ + le_bytes(value as nat, 4),
{
    append_le(buffer, value as u128, 4);
}

/// Appends the two's complement of `value` as eight bytes, least significant first.
pub fn append_i64(buffer: &mut Vec<u8>, value: i64)
    ensures
        final(buffer)@ == old(buffer)@ + le_bytes(unsigned_of(value as int, 64), 8),
{
    proof {
        lemma_pow256_values();
    }
    let bits: u128 = if value < 0 {
        ((value as i128) + 0x1_0000_0000_0000_0000i128) as u128
    } else {
        value as u128
    };
    append_le(buffer, bits, 8);
}

/// Appends `value` as eight bytes, least significant first.
pub fn append_u64(buffer: &mut Vec<u8>, value: u64)
    ensures
        final(buffer)@ == old(buffer)@ + le_bytes(value as nat, 8),
{
    append_le(buffer, value as u128, 8);
}

/// Appends `value` as sixteen bytes, least significant first.
pub fn append_u128(buffer: &mut Vec<u8>, value: u128)
    ensures
        final(buffer)@ == old(buffer)@ + le_bytes(value as nat, 16),
{
    append_le(buffer, value, 16);
}

/// Appends every byte of `value`.
pub fn append_buffer(buffer: &mut Vec<u8>, value: &[u8])
    ensures
        final(buffer)@ == old(buffer)@ + value@,
{
    let mut i: usize = 0;
    while i < value.len()
        invariant
            i <= value@.len(),
            buffer@ == old(buffer)@ + value@.subrange(0, i as int),
        decreases value@.len() - i,
    {
        buffer.push(value[i]);
        assert(buffer@ =~= old(buffer)@ + value@.subrange(0, i + 1));
        i = i + 1;
    }
    assert(value@.subrange(0, value@.len() as int) =~= value@);
}

} // verus!
