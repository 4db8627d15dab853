//! How the ingestion bridge extracts a record's keyspace, key, nonce and timestamp from
//! the parts of a consumed message, and how those extractors are configured.
use vstd::prelude::*;
use vstd::utf8::{decode_utf8, valid_utf8};
use crate::buffer::{
    be_value, le_value, read_i16, read_i16_be, read_i32, read_i32_be, read_i64, read_i64_be,
    read_i8, read_i8_be, read_u128, read_u128_be, read_u16, read_u16_be, read_u32, read_u32_be,
    read_u64, read_u64_be, signed_of, window,
};
use crate::error::{message, StoreError};
use crate::text::{chars_of, number_at, push_signed, read_number, string_of};

verus! {

broadcast use vstd::seq_lib::group_seq_properties;

/// Where a number of a record comes from.
#[derive(Clone, Debug)]
pub enum KafkaConsumerNumberParser {
    /// no value is extracted
    Unset,
    RecordHeaderBigEndian(String),
    RecordHeaderLittleEndian(String),
    RecordHeaderUtf8(String),
    RecordKeyBigEndian,
    RecordKeyLittleEndian,
    RecordKeyUtf8,
    RecordOffset,
    RecordPartition,
}

/// Where a text of a record comes from.
#[derive(Clone, Debug)]
pub enum KafkaConsumerUtf8Parser {
    /// no value is extracted
    Unset,
    Static(String),
    RecordHeader(String),
    RecordKey,
    RecordPartition,
}

/// The parts of a consumed message that the extractors read.
pub struct MessageFields {
    pub key: Option<Vec<u8>>,
    /// the headers, in order, where the message has any
    pub headers: Option<Vec<(String, Vec<u8>)>>,
    pub offset: i64,
    pub partition: i32,
}

/// Relies on `std::str::from_utf8`: the text the bytes encode, where they are valid UTF-8.
#[verifier::external_body]
fn utf8_of(v: &[u8]) -> (r: Option<String>)
    ensures
        r is Some <==> valid_utf8(v@),
        r matches Some(s) ==> s@ == decode_utf8(v@),
{
    std::str::from_utf8(v).ok().map(|s| s.to_string())
}

/// Decodes UTF-8 text; `BadData` where the bytes are not valid UTF-8.
pub fn parse_utf8(v: &[u8]) -> (r: Result<String, StoreError>)
    ensures
        r is Ok <==> valid_utf8(v@),
        r matches Ok(s) ==> s@ == decode_utf8(v@),
        r matches Err(e) ==> e is BadData,
{
    match utf8_of(v) {
        Some(s) => Ok(s),
        None => Err(StoreError::BadData(message("not parsable as utf8"))),
    }
}

/// Decodes UTF-8 text where there are bytes.
pub fn parse_opt_utf8(v: Option<&[u8]>) -> (r: Result<Option<String>, StoreError>)
    ensures
        v is None ==> r matches Ok(None),
        v matches Some(b) ==> (r is Ok <==> valid_utf8(b@)),
        v matches Some(b) ==> (r matches Ok(Some(s)) ==> s@ == decode_utf8(b@)),
        v is Some ==> !(r matches Ok(None)),
        r matches Err(e) ==> e is BadData,
{
    match v {
        None => Ok(None),
        Some(b) => match parse_utf8(b) {
            Ok(s) => Ok(Some(s)),
            Err(e) => Err(e),
        },
    }
}

/// Whether a byte length is one that integers are read from.
pub open spec fn integer_width(n: nat) -> bool {
    n == 1 || n == 2 || n == 4 || n == 8 || n == 16
}

/// Reads bytes of one of the widths 1, 2, 4, 8 or 16 as a little-endian unsigned number.
pub fn parse_le_as_u128(v: &[u8]) -> (r: Result<Option<u128>, StoreError>)
    ensures
        r is Ok <==> integer_width(v@.len()),
        r matches Ok(x) ==> x == Some(le_value(v@) as u128),
        r matches Err(e) ==> e is BadData,
{
    let n = v.len();
    assert(window(v@, 0, n as int) =~= v@);
    let x: u128 = if n == 1 {
        let b = v[0];
        assert(v@.drop_first() =~= Seq::<u8>::empty());
        reveal_with_fuel(le_value, 2);
        b as u128
    } else if n == 2 {
        match read_u16(v, 0) {
            Ok(x) => x as u128,
            Err(e) => return Err(e),
        }
    } else if n == 4 {
        match read_u32(v, 0) {
            Ok(x) => x as u128,
            Err(e) => return Err(e),
        }
    } else if n == 8 {
        match read_u64(v, 0) {
            Ok(x) => x as u128,
            Err(e) => return Err(e),
        }
    } else if n == 16 {
        match read_u128(v, 0) {
            Ok(x) => x,
            Err(e) => return Err(e),
        }
    } else {
        return Err(StoreError::BadData(message("u128 little endian header size")));
    };
    Ok(Some(x))
}

/// Reads bytes of one of the widths 1, 2, 4, 8 or 16 as a big-endian unsigned number.
pub fn parse_be_as_u128(v: &[u8]) -> (r: Result<Option<u128>, StoreError>)
    ensures
        r is Ok <==> integer_width(v@.len()),
        r matches Ok(x) ==> x == Some(be_value(v@) as u128),
        r matches Err(e) ==> e is BadData,
{
    let n = v.len();
    assert(window(v@, 0, n as int) =~= v@);
    let x: u128 = if n == 1 {
        let b = v[0];
        assert(v@.drop_last() =~= Seq::<u8>::empty());
        reveal_with_fuel(be_value, 2);
        b as u128
    } else if n == 2 {
        match read_u16_be(v, 0) {
            Ok(x) => x as u128,
            Err(e) => return Err(e),
        }
    } else if n == 4 {
        match read_u32_be(v, 0) {
            Ok(x) => x as u128,
            Err(e) => return Err(e),
        }
    } else if n == 8 {
        match read_u64_be(v, 0) {
            Ok(x) => x as u128,
            Err(e) => return Err(e),
        }
    } else if n == 16 {
        match read_u128_be(v, 0) {
            Ok(x) => x,
            Err(e) => return Err(e),
        }
    } else {
        return Err(StoreError::BadData(message("u128 big endian header size")));
    };
    Ok(Some(x))
}

/// Whether a byte length is one that signed integers are read from.
pub open spec fn signed_width(n: nat) -> bool {
    n == 1 || n == 2 || n == 4 || n == 8
}

/// Reads bytes of one of the widths 1, 2, 4 or 8 as a little-endian two's complement number.
pub fn parse_le_as_i64(v: &[u8]) -> (r: Result<Option<i64>, StoreError>)
    ensures
        r is Ok <==> signed_width(v@.len()),
        r matches Ok(x) ==> x == Some(signed_of(le_value(v@), 8 * v@.len()) as i64),
        r matches Err(e) ==> e is BadData,
{
    let n = v.len();
    assert(window(v@, 0, n as int) =~= v@);
    let x: i64 = if n == 1 {
        match read_i8(v, 0) {
            Ok(x) => x as i64,
            Err(e) => return Err(e),
        }
    } else if n == 2 {
        match read_i16(v, 0) {
            Ok(x) => x as i64,
            Err(e) => return Err(e),
        }
    } else if n == 4 {
        match read_i32(v, 0) {
            Ok(x) => x as i64,
            Err(e) => return Err(e),
        }
    } else if n == 8 {
        match read_i64(v, 0) {
            Ok(x) => x,
            Err(e) => return Err(e),
        }
    } else {
        return Err(StoreError::BadData(message("i64 little endian header size")));
    };
    Ok(Some(x))
}

/// Reads bytes of one of the widths 1, 2, 4 or 8 as a big-endian two's complement number.
pub fn parse_be_as_i64(v: &[u8]) -> (r: Result<Option<i64>, StoreError>)
    ensures
        r is Ok <==> signed_width(v@.len()),
        r matches Ok(x) ==> x == Some(signed_of(be_value(v@), 8 * v@.len()) as i64),
        r matches Err(e) ==> e is BadData,
{
    let n = v.len();
    assert(window(v@, 0, n as int) =~= v@);
    let x: i64 = if n == 1 {
        match read_i8_be(v, 0) {
            Ok(x) => x as i64,
            Err(e) => return Err(e),
        }
    } else if n == 2 {
        match read_i16_be(v, 0) {
            Ok(x) => x as i64,
            Err(e) => return Err(e),
        }
    } else if n == 4 {
        match read_i32_be(v, 0) {
            Ok(x) => x as i64,
            Err(e) => return Err(e),
        }
    } else if n == 8 {
        match read_i64_be(v, 0) {
            Ok(x) => x,
            Err(e) => return Err(e),
        }
    } else {
        return Err(StoreError::BadData(message("i64 big endian header size")));
    };
    Ok(Some(x))
}

/// The value of a decimal text: an optional `+` then digits, and nothing else.
pub open spec fn unsigned_text(s: Seq<char>) -> Option<nat> {
    let start: int = if s.len() > 0 && s[0] == '+' { 1 } else { 0 };
    match number_at(s, start) {
        Some((v, e)) => if e == s.len() {
            Some(v)
        } else {
            None
        },
        None => None,
    }
}

/// The value of a signed decimal text: an optional `+` or `-` then digits, and nothing else.
pub open spec fn signed_text(s: Seq<char>) -> Option<int> {
    let start: int = if s.len() > 0 && (s[0] == '+' || s[0] == '-') { 1 } else { 0 };
    match number_at(s, start) {
        Some((v, e)) => if e == s.len() {
            if start == 1 && s[0] == '-' {
                Some(-v)
            } else {
                Some(v as int)
            }
        } else {
            None
        },
        None => None,
    }
}

/// Reads a decimal text as a `u128`; `BadData` where it is not one.
pub fn parse_str_as_u128(s: &str) -> (r: Result<Option<u128>, StoreError>)
    ensures
        r is Ok <==> (unsigned_text(s@) matches Some(v) && v <= u128::MAX),
        r matches Ok(x) ==> x == Some(unsigned_text(s@)->Some_0 as u128),
        r matches Err(e) ==> e is BadData,
{
    let cs = chars_of(s);
    let start: usize = if cs.len() > 0 && cs[0] == '+' { 1 } else { 0 };
    match read_number(&cs, start) {
        Some((v, e)) => if e == cs.len() {
            Ok(Some(v))
        } else {
            Err(StoreError::BadData(message("not a u128")))
        },
        None => Err(StoreError::BadData(message("not a u128"))),
    }
}

/// Reads a signed decimal text as an `i64`; `BadData` where it is not one.
pub fn parse_str_as_i64(s: &str) -> (r: Result<Option<i64>, StoreError>)
    ensures
        r is Ok <==> (signed_text(s@) matches Some(v) && i64::MIN <= v <= i64::MAX),
        r matches Ok(x) ==> x == Some(signed_text(s@)->Some_0 as i64),
        r matches Err(e) ==> e is BadData,
{
    let cs = chars_of(s);
    let signed = cs.len() > 0 && (cs[0] == '+' || cs[0] == '-');
    let start: usize = if signed { 1 } else { 0 };
    let negative = signed && cs[0] == '-';
    match read_number(&cs, start) {
        Some((v, e)) => if e != cs.len() {
            Err(StoreError::BadData(message("not an i64")))
        } else if negative {
            if v <= 0x8000_0000_0000_0000 {
                Ok(Some((0i128 - v as i128) as i64))
            } else {
                Err(StoreError::BadData(message("not an i64")))
            }
        } else if v <= 0x7fff_ffff_ffff_ffff {
            Ok(Some(v as i64))
        } else {
            Err(StoreError::BadData(message("not an i64")))
        },
        None => Err(StoreError::BadData(message("not an i64"))),
    }
}

/// Reads UTF-8 decimal text as a `u128`.
pub fn parse_utf8_as_u128(v: &[u8]) -> (r: Result<Option<u128>, StoreError>)
    ensures
        r is Ok <==> valid_utf8(v@) && (unsigned_text(decode_utf8(v@)) matches Some(x) && x <= u128::MAX),
        r matches Ok(x) ==> x == Some(unsigned_text(decode_utf8(v@))->Some_0 as u128),
        r matches Err(e) ==> e is BadData,
{
    match parse_utf8(v) {
        Ok(s) => parse_str_as_u128(s.as_str()),
        Err(e) => Err(e),
    }
}

/// Reads UTF-8 signed decimal text as an `i64`.
pub fn parse_utf8_as_i64(v: &[u8]) -> (r: Result<Option<i64>, StoreError>)
    ensures
        r is Ok <==> valid_utf8(v@) && (signed_text(decode_utf8(v@)) matches Some(x) && i64::MIN <= x <= i64::MAX),
        r matches Ok(x) ==> x == Some(signed_text(decode_utf8(v@))->Some_0 as i64),
        r matches Err(e) ==> e is BadData,
{
    match parse_utf8(v) {
        Ok(s) => parse_str_as_i64(s.as_str()),
        Err(e) => Err(e),
    }
}

/// Reads little-endian bytes as a `u128`, where there are bytes.
pub fn parse_opt_le_as_u128(v: Option<&[u8]>) -> (r: Result<Option<u128>, StoreError>)
    ensures
        v is None ==> r matches Ok(None),
        v matches Some(b) ==> (r is Ok <==> integer_width(b@.len())),
        v matches Some(b) ==> (r matches Ok(x) ==> x == Some(le_value(b@) as u128)),
{
    match v {
        None => Ok(None),
        Some(b) => parse_le_as_u128(b),
    }
}

/// Reads big-endian bytes as a `u128`, where there are bytes.
pub fn parse_opt_be_as_u128(v: Option<&[u8]>) -> (r: Result<Option<u128>, StoreError>)
    ensures
        v is None ==> r matches Ok(None),
        v matches Some(b) ==> (r is Ok <==> integer_width(b@.len())),
        v matches Some(b) ==> (r matches Ok(x) ==> x == Some(be_value(b@) as u128)),
{
    match v {
        None => Ok(None),
        Some(b) => parse_be_as_u128(b),
    }
}

/// Reads UTF-8 decimal text as a `u128`, where there are bytes.
pub fn parse_opt_utf8_as_u128(v: Option<&[u8]>) -> (r: Result<Option<u128>, StoreError>)
    ensures
        v is None ==> r matches Ok(None),
        v matches Some(b) ==> (r is Ok <==> valid_utf8(b@) && (unsigned_text(decode_utf8(b@)) matches Some(x) && x <= u128::MAX)),
        v matches Some(b) ==> (r matches Ok(x) ==> x == Some(unsigned_text(decode_utf8(b@))->Some_0 as u128)),
{
    match v {
        None => Ok(None),
        Some(b) => parse_utf8_as_u128(b),
    }
}

/// Reads little-endian two's complement bytes as an `i64`, where there are bytes.
pub fn parse_opt_le_as_i64(v: Option<&[u8]>) -> (r: Result<Option<i64>, StoreError>)
    ensures
        v is None ==> r matches Ok(None),
        v matches Some(b) ==> (r is Ok <==> signed_width(b@.len())),
        v matches Some(b) ==> (r matches Ok(x) ==> x == Some(signed_of(le_value(b@), 8 * b@.len()) as i64)),
{
    match v {
        None => Ok(None),
        Some(b) => parse_le_as_i64(b),
    }
}

/// Reads big-endian two's complement bytes as an `i64`, where there are bytes.
pub fn parse_opt_be_as_i64(v: Option<&[u8]>) -> (r: Result<Option<i64>, StoreError>)
    ensures
        v is None ==> r matches Ok(None),
        v matches Some(b) ==> (r is Ok <==> signed_width(b@.len())),
        v matches Some(b) ==> (r matches Ok(x) ==> x == Some(signed_of(be_value(b@), 8 * b@.len()) as i64)),
{
    match v {
        None => Ok(None),
        Some(b) => parse_be_as_i64(b),
    }
}

/// Reads UTF-8 signed decimal text as an `i64`, where there are bytes.
pub fn parse_opt_utf8_as_i64(v: Option<&[u8]>) -> (r: Result<Option<i64>, StoreError>)
    ensures
        v is None ==> r matches Ok(None),
        v matches Some(b) ==> (r is Ok <==> valid_utf8(b@) && (signed_text(decode_utf8(b@)) matches Some(x) && i64::MIN <= x <= i64::MAX)),
        v matches Some(b) ==> (r matches Ok(x) ==> x == Some(signed_text(decode_utf8(b@))->Some_0 as i64)),
{
    match v {
        None => Ok(None),
        Some(b) => parse_utf8_as_i64(b),
    }
}

/// The index of the first header named `name`.
pub open spec fn first_header(hs: Seq<(String, Vec<u8>)>, name: Seq<char>) -> Option<int> {
    if exists|i: int| 0 <= i < hs.len() && #[trigger] hs[i].0@ == name {
        Some(choose|i: int| 0 <= i < hs.len() && #[trigger] hs[i].0@ == name && forall|j: int| 0 <= j < i ==> hs[j].0@ != name)
    } else {
        None
    }
}

/// The value of the first header named `name`, where the message has one.
pub open spec fn header_of(f: MessageFields, name: Seq<char>) -> Option<Seq<u8>> {
    match f.headers {
        None => None,
        Some(hs) => match first_header(hs@, name) {
            Some(i) => Some(hs@[i].1@),
            None => None,
        },
    }
}

fn eq_chars(a: &String, b: &String) -> (r: bool)
    ensures
        r == (a@ == b@),
{
    let x = chars_of(a.as_str());
    let y = chars_of(b.as_str());
    if x.len() != y.len() {
        return false;
    }
    let mut i: usize = 0;
    while i < x.len()
        invariant
            x@ == a@,
            y@ == b@,
            x@.len() == y@.len(),
            i <= x@.len(),
            forall|j: int| 0 <= j < i ==> x@[j] == y@[j],
        decreases x@.len() - i,
    {
        if x[i] != y[i] {
            return false;
        }
        i = i + 1;
    }
    assert(x@ =~= y@);
    true
}

/// The value of the first header named `name`, where the message has one.
fn find_header<'a>(f: &'a MessageFields, name: &String) -> (r: Option<&'a Vec<u8>>)
    ensures
        match r {
            Some(v) => header_of(*f, name@) == Some(v@),
            None => header_of(*f, name@) is None,
        },
{
    match f.headers.as_ref() {
        None => None,
        Some(hs) => {
            let mut i: usize = 0;
            while i < hs.len()
                invariant
                    f.headers == Some(*hs),
                    i <= hs@.len(),
                    forall|j: int| 0 <= j < i ==> hs@[j].0@ != name@,
                decreases hs@.len() - i,
            {
                if eq_chars(&hs[i].0, name) {
                    assert(0 <= i < hs@.len() && hs@[i as int].0@ == name@ && forall|j: int| 0 <= j < i ==> hs@[j].0@ != name@);
                    assert(first_header(hs@, name@) == Some(i as int)) by {
                        let k = choose|k: int| 0 <= k < hs@.len() && #[trigger] hs@[k].0@ == name@ && forall|j: int| 0 <= j < k ==> hs@[j].0@ != name@;
                        assert(k == i);
                    }
                    assert(header_of(*f, name@) == Some(hs@[i as int].1@));
                    let found: &'a Vec<u8> = &hs[i].1;
                    assert(found@ == hs@[i as int].1@);
                    return Some(found);
                }
                i = i + 1;
            }
            None
        },
    }
}

/// The value in `[0, 2^128)` that `x` wraps to.
pub open spec fn wrap_u128(x: int) -> u128 {
    if x >= 0 {
        x as u128
    } else {
        (x + 0x1_0000_0000_0000_0000_0000_0000_0000_0000) as u128
    }
}

fn wrap_i64_to_u128(x: i64) -> (r: u128)
    ensures
        r == wrap_u128(x as int),
{
    if x >= 0 {
        x as u128
    } else {
        (0xffff_ffff_ffff_ffff_ffff_ffff_ffff_ffffu128 - ((0i128 - 1 - x as i128) as u128))
    }
}

/// The unsigned number an extractor finds in a message: `None` where it is malformed.
pub open spec fn u128_field(p: KafkaConsumerNumberParser, f: MessageFields) -> Option<Option<u128>> {
    let key = match f.key {
        Some(k) => Some(k@),
        None => None,
    };
    let from = |bytes: Option<Seq<u8>>, read: spec_fn(Seq<u8>) -> Option<u128>|
        match bytes {
            None => Some(None),
            Some(b) => match read(b) {
                Some(v) => Some(Some(v)),
                None => None,
            },
        };
    let le = |b: Seq<u8>| if integer_width(b.len()) { Some(le_value(b) as u128) } else { None };
    let be = |b: Seq<u8>| if integer_width(b.len()) { Some(be_value(b) as u128) } else { None };
    let text = |b: Seq<u8>| if valid_utf8(b) && (unsigned_text(decode_utf8(b)) matches Some(x) && x <= u128::MAX) {
        Some(unsigned_text(decode_utf8(b))->Some_0 as u128)
    } else {
        None
    };
    match p {
        KafkaConsumerNumberParser::Unset => Some(None),
        KafkaConsumerNumberParser::RecordHeaderBigEndian(name) => from(header_of(f, name@), be),
        KafkaConsumerNumberParser::RecordHeaderLittleEndian(name) => from(header_of(f, name@), le),
        KafkaConsumerNumberParser::RecordHeaderUtf8(name) => from(header_of(f, name@), text),
        KafkaConsumerNumberParser::RecordKeyBigEndian => from(key, be),
        KafkaConsumerNumberParser::RecordKeyLittleEndian => from(key, le),
        KafkaConsumerNumberParser::RecordKeyUtf8 => from(key, text),
        KafkaConsumerNumberParser::RecordOffset => Some(Some(wrap_u128(f.offset as int))),
        KafkaConsumerNumberParser::RecordPartition => Some(Some(wrap_u128(f.partition as int))),
    }
}

/// The signed number an extractor finds in a message: `None` where it is malformed.
pub open spec fn i64_field(p: KafkaConsumerNumberParser, f: MessageFields) -> Option<Option<i64>> {
    let key = match f.key {
        Some(k) => Some(k@),
        None => None,
    };
    let from = |bytes: Option<Seq<u8>>, read: spec_fn(Seq<u8>) -> Option<i64>|
        match bytes {
            None => Some(None),
            Some(b) => match read(b) {
                Some(v) => Some(Some(v)),
                None => None,
            },
        };
    let le = |b: Seq<u8>| if signed_width(b.len()) { Some(signed_of(le_value(b), 8 * b.len()) as i64) } else { None };
    let be = |b: Seq<u8>| if signed_width(b.len()) { Some(signed_of(be_value(b), 8 * b.len()) as i64) } else { None };
    let text = |b: Seq<u8>| if valid_utf8(b) && (signed_text(decode_utf8(b)) matches Some(x) && i64::MIN <= x <= i64::MAX) {
        Some(signed_text(decode_utf8(b))->Some_0 as i64)
    } else {
        None
    };
    match p {
        KafkaConsumerNumberParser::Unset => Some(None),
        KafkaConsumerNumberParser::RecordHeaderBigEndian(name) => from(header_of(f, name@), be),
        KafkaConsumerNumberParser::RecordHeaderLittleEndian(name) => from(header_of(f, name@), le),
        KafkaConsumerNumberParser::RecordHeaderUtf8(name) => from(header_of(f, name@), text),
        KafkaConsumerNumberParser::RecordKeyBigEndian => from(key, be),
        KafkaConsumerNumberParser::RecordKeyLittleEndian => from(key, le),
        KafkaConsumerNumberParser::RecordKeyUtf8 => from(key, text),
        KafkaConsumerNumberParser::RecordOffset => Some(Some(f.offset)),
        KafkaConsumerNumberParser::RecordPartition => Some(Some(f.partition as i64)),
    }
}

fn key_bytes(f: &MessageFields) -> (r: Option<&[u8]>)
    ensures
        match r {
            Some(b) => f.key matches Some(k) && b@ == k@,
            None => f.key is None,
        },
{
    match &f.key {
        Some(k) => Some(k.as_slice()),
        None => None,
    }
}

fn header_bytes<'a>(f: &'a MessageFields, name: &String) -> (r: Option<&'a [u8]>)
    ensures
        match r {
            Some(b) => header_of(*f, name@) == Some(b@),
            None => header_of(*f, name@) is None,
        },
{
    match find_header(f, name) {
        Some(v) => Some(v.as_slice()),
        None => None,
    }
}

/// The nonce, or other unsigned number, that an extractor finds in a message; `BadData`
/// where the bytes it names are malformed.
pub fn parse_u128_opt(parser: &KafkaConsumerNumberParser, message_fields: &MessageFields) -> (r: Result<Option<u128>, StoreError>)
    ensures
        r is Ok <==> u128_field(*parser, *message_fields) is Some,
        r matches Ok(v) ==> Some(v) == u128_field(*parser, *message_fields),
{
    match parser {
        KafkaConsumerNumberParser::Unset => Ok(None),
        KafkaConsumerNumberParser::RecordHeaderBigEndian(name) => parse_opt_be_as_u128(header_bytes(message_fields, name)),
        KafkaConsumerNumberParser::RecordHeaderLittleEndian(name) => parse_opt_le_as_u128(header_bytes(message_fields, name)),
        KafkaConsumerNumberParser::RecordHeaderUtf8(name) => parse_opt_utf8_as_u128(header_bytes(message_fields, name)),
        KafkaConsumerNumberParser::RecordOffset => Ok(Some(wrap_i64_to_u128(message_fields.offset))),
        KafkaConsumerNumberParser::RecordKeyBigEndian => parse_opt_be_as_u128(key_bytes(message_fields)),
        KafkaConsumerNumberParser::RecordKeyLittleEndian => parse_opt_le_as_u128(key_bytes(message_fields)),
        KafkaConsumerNumberParser::RecordKeyUtf8 => parse_opt_utf8_as_u128(key_bytes(message_fields)),
        KafkaConsumerNumberParser::RecordPartition => Ok(Some(wrap_i64_to_u128(message_fields.partition as i64))),
    }
}

/// The timestamp, or other signed number, that an extractor finds in a message;
/// `BadData` where the bytes it names are malformed.
pub fn parse_i64_opt(parser: &KafkaConsumerNumberParser, message_fields: &MessageFields) -> (r: Result<Option<i64>, StoreError>)
    ensures
        r is Ok <==> i64_field(*parser, *message_fields) is Some,
        r matches Ok(v) ==> Some(v) == i64_field(*parser, *message_fields),
{
    match parser {
        KafkaConsumerNumberParser::Unset => Ok(None),
        KafkaConsumerNumberParser::RecordHeaderBigEndian(name) => parse_opt_be_as_i64(header_bytes(message_fields, name)),
        KafkaConsumerNumberParser::RecordHeaderLittleEndian(name) => parse_opt_le_as_i64(header_bytes(message_fields, name)),
        KafkaConsumerNumberParser::RecordHeaderUtf8(name) => parse_opt_utf8_as_i64(header_bytes(message_fields, name)),
        KafkaConsumerNumberParser::RecordOffset => Ok(Some(message_fields.offset)),
        KafkaConsumerNumberParser::RecordKeyBigEndian => parse_opt_be_as_i64(key_bytes(message_fields)),
        KafkaConsumerNumberParser::RecordKeyLittleEndian => parse_opt_le_as_i64(key_bytes(message_fields)),
        KafkaConsumerNumberParser::RecordKeyUtf8 => parse_opt_utf8_as_i64(key_bytes(message_fields)),
        KafkaConsumerNumberParser::RecordPartition => Ok(Some(message_fields.partition as i64)),
    }
}

/// The text an extractor finds in a message: `None` where it is malformed.
pub open spec fn utf8_field_ok(p: KafkaConsumerUtf8Parser, f: MessageFields) -> bool {
    match p {
        KafkaConsumerUtf8Parser::RecordHeader(name) => match header_of(f, name@) {
            Some(b) => valid_utf8(b),
            None => true,
        },
        KafkaConsumerUtf8Parser::RecordKey => match f.key {
            Some(k) => valid_utf8(k@),
            None => true,
        },
        _ => true,
    }
}

/// The keyspace, key or other text that an extractor finds in a message; `BadData` where
/// the bytes it names are not UTF-8.
pub fn parse_utf8_opt(parser: &KafkaConsumerUtf8Parser, message_fields: &MessageFields) -> (r: Result<Option<String>, StoreError>)
    ensures
        r is Ok <==> utf8_field_ok(*parser, *message_fields),
        r matches Ok(v) ==> match *parser {
            KafkaConsumerUtf8Parser::Unset => v is None,
            KafkaConsumerUtf8Parser::Static(s) => v matches Some(t) && t@ == s@,
            KafkaConsumerUtf8Parser::RecordHeader(name) => match header_of(*message_fields, name@) {
                Some(b) => v matches Some(t) && t@ == decode_utf8(b),
                None => v is None,
            },
            KafkaConsumerUtf8Parser::RecordKey => match message_fields.key {
                Some(k) => v matches Some(t) && t@ == decode_utf8(k@),
                None => v is None,
            },
            KafkaConsumerUtf8Parser::RecordPartition => v matches Some(t) && t@ == crate::text::signed_decimal(message_fields.partition as int),
        },
{
    match parser {
        KafkaConsumerUtf8Parser::Unset => Ok(None),
        KafkaConsumerUtf8Parser::Static(v) => {
            let mut out: Vec<char> = Vec::new();
            crate::text::push_str(&mut out, v.as_str());
            Ok(Some(string_of(&out)))
        },
        KafkaConsumerUtf8Parser::RecordHeader(name) => parse_opt_utf8(header_bytes(message_fields, name)),
        KafkaConsumerUtf8Parser::RecordKey => parse_opt_utf8(key_bytes(message_fields)),
        KafkaConsumerUtf8Parser::RecordPartition => {
            let mut out: Vec<char> = Vec::new();
            push_signed(&mut out, message_fields.partition as i64);
            Ok(Some(string_of(&out)))
        },
    }
}

/// The text an extractor finds in a message, which must be there; `BadData` where it is
/// not, or where its bytes are not UTF-8.
pub fn parse_utf8_req(parser: &KafkaConsumerUtf8Parser, message_fields: &MessageFields) -> (r: Result<String, StoreError>)
    ensures
        r is Ok ==> utf8_field_ok(*parser, *message_fields),
        parser is Unset ==> r is Err,
        parser matches KafkaConsumerUtf8Parser::Static(s) ==> (r matches Ok(t) && t@ == s@),
        parser is RecordPartition ==> (r matches Ok(t) && t@ == crate::text::signed_decimal(
            message_fields.partition as int,
        )),
        parser matches KafkaConsumerUtf8Parser::RecordHeader(name) ==> match header_of(
            *message_fields,
            name@,
        ) {
            Some(b) => (r is Ok <==> valid_utf8(b)) && (r matches Ok(t) ==> t@ == decode_utf8(b)),
            None => r is Err,
        },
        parser is RecordKey ==> match message_fields.key {
            Some(k) => (r is Ok <==> valid_utf8(k@)) && (r matches Ok(t) ==> t@ == decode_utf8(k@)),
            None => r is Err,
        },
{
    match parse_utf8_opt(parser, message_fields) {
        Ok(None) => Err(StoreError::BadData(message("required utf8 value not present"))),
        Ok(Some(v)) => Ok(v),
        Err(e) => Err(e),
    }
}

/// The index of the last `(` at or before `k` and after the first character, or -1.
pub open spec fn last_open_paren(s: Seq<char>, k: int) -> int
    decreases k,
{
    if k < 1 || k >= s.len() {
        -1
    } else if s[k] == '(' {
        k
    } else {
        last_open_paren(s, k - 1)
    }
}

/// The name and argument of a configuration value written `Name(argument)` on one line,
/// both non-empty; the argument runs from the last `(` that leaves it a character.
pub open spec fn call_parts(s: Seq<char>) -> Option<(Seq<char>, Seq<char>)> {
    if s.len() >= 4 && s.last() == ')' && !s.contains('\n') {
        let p = last_open_paren(s, s.len() - 3);
        if p >= 1 {
            Some((s.subrange(0, p), s.subrange(p + 1, s.len() - 1)))
        } else {
            None
        }
    } else {
        None
    }
}

fn same_chars(a: &Vec<char>, b: &Vec<char>) -> (r: bool)
    ensures
        r == (a@ == b@),
{
    if a.len() != b.len() {
        return false;
    }
    let mut i: usize = 0;
    while i < a.len()
        invariant
            a@.len() == b@.len(),
            i <= a@.len(),
            forall|j: int| 0 <= j < i ==> a@[j] == b@[j],
        decreases a@.len() - i,
    {
        if a[i] != b[i] {
            return false;
        }
        i = i + 1;
    }
    assert(a@ =~= b@);
    true
}

fn is_word(a: &Vec<char>, w: &str) -> (r: bool)
    ensures
        r == (a@ == w@),
{
    same_chars(a, &chars_of(w))
}

fn slice_chars(s: &Vec<char>, from: usize, to: usize) -> (r: Vec<char>)
    requires
        from <= to <= s@.len(),
    ensures
        r@ == s@.subrange(from as int, to as int),
{
    let mut out: Vec<char> = Vec::new();
    let mut i: usize = from;
    while i < to
        invariant
            from <= i <= to <= s@.len(),
            out@ == s@.subrange(from as int, i as int),
        decreases to - i,
    {
        out.push(s[i]);
        assert(out@ =~= s@.subrange(from as int, i + 1));
        i = i + 1;
    }
    out
}

/// Splits `Name(argument)` into its name and argument.
fn split_call(s: &Vec<char>) -> (r: Option<(Vec<char>, Vec<char>)>)
    ensures
        match r {
            Some((n, a)) => call_parts(s@) == Some((n@, a@)),
            None => call_parts(s@) is None,
        },
{
    let n = s.len();
    if n < 4 || s[n - 1] != ')' {
        return None;
    }
    let mut i: usize = 0;
    while i < n
        invariant
            n == s@.len(),
            i <= n,
            forall|j: int| 0 <= j < i ==> s@[j] != '\n',
        decreases n - i,
    {
        if s[i] == '\n' {
            assert(s@.contains('\n'));
            return None;
        }
        i = i + 1;
    }
    assert(!s@.contains('\n'));
    let mut k: usize = n - 3;
    while k >= 1 && s[k] != '('
        invariant
            n == s@.len(),
            k <= n - 3,
            last_open_paren(s@, n - 3) == last_open_paren(s@, k as int),
        decreases k,
    {
        k = k - 1;
    }
    if k < 1 {
        return None;
    }
    Some((slice_chars(s, 0, k), slice_chars(s, k + 1, n - 1)))
}

/// The number extractor that a configuration value names: a plain name, or
/// `RecordHeaderBigEndian(h)`, `RecordHeaderLittleEndian(h)` or `RecordHeaderUtf8(h)` for a
/// header `h`.
pub open spec fn number_parser_spec(s: Seq<char>, r: Result<KafkaConsumerNumberParser, StoreError>) -> bool {
    if s == "None"@ {
        r matches Ok(KafkaConsumerNumberParser::Unset)
    } else if s == "RecordKeyBigEndian"@ {
        r matches Ok(KafkaConsumerNumberParser::RecordKeyBigEndian)
    } else if s == "RecordKeyLittleEndian"@ {
        r matches Ok(KafkaConsumerNumberParser::RecordKeyLittleEndian)
    } else if s == "RecordKeyUtf8"@ {
        r matches Ok(KafkaConsumerNumberParser::RecordKeyUtf8)
    } else if s == "RecordOffset"@ {
        r matches Ok(KafkaConsumerNumberParser::RecordOffset)
    } else if s == "RecordPartition"@ {
        r matches Ok(KafkaConsumerNumberParser::RecordPartition)
    } else {
        match call_parts(s) {
            Some((n, a)) => if n == "RecordHeaderBigEndian"@ {
                r matches Ok(KafkaConsumerNumberParser::RecordHeaderBigEndian(h)) && h@ == a
            } else if n == "RecordHeaderLittleEndian"@ {
                r matches Ok(KafkaConsumerNumberParser::RecordHeaderLittleEndian(h)) && h@ == a
            } else if n == "RecordHeaderUtf8"@ {
                r matches Ok(KafkaConsumerNumberParser::RecordHeaderUtf8(h)) && h@ == a
            } else {
                r matches Err(StoreError::BadConfiguration(_))
            },
            None => r matches Err(StoreError::BadConfiguration(_)),
        }
    }
}

/// The text extractor that a configuration value names: a plain name, or `Static(text)`
/// or `RecordHeader(h)`.
pub open spec fn utf8_parser_spec(s: Seq<char>, r: Result<KafkaConsumerUtf8Parser, StoreError>) -> bool {
    if s == "None"@ {
        r matches Ok(KafkaConsumerUtf8Parser::Unset)
    } else if s == "RecordKey"@ {
        r matches Ok(KafkaConsumerUtf8Parser::RecordKey)
    } else if s == "RecordPartition"@ {
        r matches Ok(KafkaConsumerUtf8Parser::RecordPartition)
    } else {
        match call_parts(s) {
            Some((n, a)) => if n == "Static"@ {
                r matches Ok(KafkaConsumerUtf8Parser::Static(h)) && h@ == a
            } else if n == "RecordHeader"@ {
                r matches Ok(KafkaConsumerUtf8Parser::RecordHeader(h)) && h@ == a
            } else {
                r matches Err(StoreError::BadConfiguration(_))
            },
            None => r matches Err(StoreError::BadConfiguration(_)),
        }
    }
}

/// The number extractor a configuration value names; none where the value is absent.
pub fn create_number_parser(cfg: Option<&str>) -> (r: Result<KafkaConsumerNumberParser, StoreError>)
    ensures
        cfg is None ==> r matches Ok(KafkaConsumerNumberParser::Unset),
        cfg matches Some(c) ==> number_parser_spec(c@, r),
{
    let c = match cfg {
        None => return Ok(KafkaConsumerNumberParser::Unset),
        Some(c) => c,
    };
    let s = chars_of(c);
    if is_word(&s, "None") {
        return Ok(KafkaConsumerNumberParser::Unset);
    }
    if is_word(&s, "RecordKeyBigEndian") {
        return Ok(KafkaConsumerNumberParser::RecordKeyBigEndian);
    }
    if is_word(&s, "RecordKeyLittleEndian") {
        return Ok(KafkaConsumerNumberParser::RecordKeyLittleEndian);
    }
    if is_word(&s, "RecordKeyUtf8") {
        return Ok(KafkaConsumerNumberParser::RecordKeyUtf8);
    }
    if is_word(&s, "RecordOffset") {
        return Ok(KafkaConsumerNumberParser::RecordOffset);
    }
    if is_word(&s, "RecordPartition") {
        return Ok(KafkaConsumerNumberParser::RecordPartition);
    }
    match split_call(&s) {
        Some((name, arg)) => {
            if is_word(&name, "RecordHeaderBigEndian") {
                return Ok(KafkaConsumerNumberParser::RecordHeaderBigEndian(string_of(&arg)));
            }
            if is_word(&name, "RecordHeaderLittleEndian") {
                return Ok(KafkaConsumerNumberParser::RecordHeaderLittleEndian(string_of(&arg)));
            }
            if is_word(&name, "RecordHeaderUtf8") {
                return Ok(KafkaConsumerNumberParser::RecordHeaderUtf8(string_of(&arg)));
            }
            Err(StoreError::BadConfiguration(message("invalid number parser")))
        },
        None => Err(StoreError::BadConfiguration(message("invalid number parser"))),
    }
}

/// The text extractor a configuration value names; none where the value is absent.
pub fn create_utf8_parser(cfg: Option<&str>) -> (r: Result<KafkaConsumerUtf8Parser, StoreError>)
    ensures
        cfg is None ==> r matches Ok(KafkaConsumerUtf8Parser::Unset),
        cfg matches Some(c) ==> utf8_parser_spec(c@, r),
{
    let c = match cfg {
        None => return Ok(KafkaConsumerUtf8Parser::Unset),
        Some(c) => c,
    };
    let s = chars_of(c);
    if is_word(&s, "None") {
        return Ok(KafkaConsumerUtf8Parser::Unset);
    }
    if is_word(&s, "RecordKey") {
        return Ok(KafkaConsumerUtf8Parser::RecordKey);
    }
    if is_word(&s, "RecordPartition") {
        return Ok(KafkaConsumerUtf8Parser::RecordPartition);
    }
    match split_call(&s) {
        Some((name, arg)) => {
            if is_word(&name, "Static") {
                return Ok(KafkaConsumerUtf8Parser::Static(string_of(&arg)));
            }
            if is_word(&name, "RecordHeader") {
                return Ok(KafkaConsumerUtf8Parser::RecordHeader(string_of(&arg)));
            }
            Err(StoreError::BadConfiguration(message("invalid utf8 parser")))
        },
        None => Err(StoreError::BadConfiguration(message("invalid utf8 parser"))),
    }
}

} // verus!
