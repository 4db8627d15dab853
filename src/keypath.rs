//! Object names: the keyspace configuration, the watermark, and the data objects whose
//! names carry a summary of their records.
use vstd::prelude::*;
use crate::buffer::{append_u64, le_bytes, le_value, read_u64, window};
use crate::error::{message, StoreError};
use crate::records::RecordFilter;
use crate::text::{
    chars_of, decimal, lit_at, number_at, push_decimal, push_padded, push_signed, push_str,
    read_number, signed_at, signed_decimal, string_of, zero_padded,
};
use crate::{Direction, KeyMetadata};

verus! {

broadcast use vstd::seq_lib::group_seq_properties;

/// `<root><keyspace>/<key>/`, the directory of a key's objects.
pub open spec fn key_dir(root: Seq<char>, keyspace: Seq<char>, key: Seq<char>) -> Seq<char> {
    root + keyspace + seq!['/'] + key + seq!['/']
}

/// `data_o`, which begins the name of every data object.
pub open spec fn data_o() -> Seq<char> {
    seq!['d', 'a', 't', 'a', '_', 'o']
}

fn push_key_dir(out: &mut Vec<char>, root: &str, keyspace: &str, key: &str)
    ensures
        final(out)@ == old(out)@ + key_dir(root@, keyspace@, key@),
{
    push_str(out, root);
    push_str(out, keyspace);
    out.push('/');
    push_str(out, key);
    out.push('/');
    assert(out@ =~= old(out)@ + key_dir(root@, keyspace@, key@));
}

fn push_data_o(out: &mut Vec<char>)
    ensures
        final(out)@ == old(out)@ + data_o(),
{
    out.push('d');
    out.push('a');
    out.push('t');
    out.push('a');
    out.push('_');
    out.push('o');
    assert(out@ =~= old(out)@ + data_o());
}

/// The offset of the first fully compacted object of a key.
#[derive(Clone, Copy, Debug, PartialEq, Eq, Structural)]
pub struct Watermark {
    pub offset: u64,
}

impl Watermark {
    pub fn new(offset: u64) -> (r: Self)
        ensures
            r.offset == offset,
    {
        Self { offset }
    }

    /// `<root><keyspace>/<key>/watermark`.
    pub fn path(root_prefix: &str, keyspace: &str, key: &str) -> (r: String)
        ensures
            r@ == key_dir(root_prefix@, keyspace@, key@) + seq!['w', 'a', 't', 'e', 'r', 'm', 'a', 'r', 'k'],
    {
        let mut out: Vec<char> = Vec::new();
        push_key_dir(&mut out, root_prefix, keyspace, key);
        let ghost mid = out@;
        out.push('w');
        out.push('a');
        out.push('t');
        out.push('e');
        out.push('r');
        out.push('m');
        out.push('a');
        out.push('r');
        out.push('k');
        assert(out@ =~= mid + seq!['w', 'a', 't', 'e', 'r', 'm', 'a', 'r', 'k']);
        string_of(&out)
    }

    /// Reads a watermark body: a little-endian `u64`.
    pub fn from(buffer: &Vec<u8>) -> (r: Result<Watermark, StoreError>)
        ensures
            r is Ok <==> buffer@.len() >= 8,
            r matches Ok(w) ==> w.offset == le_value(window(buffer@, 0, 8)),
            r matches Err(e) ==> e is BadData,
    {
        match read_u64(buffer.as_slice(), 0) {
            Ok(offset) => Ok(Watermark { offset }),
            Err(e) => Err(e),
        }
    }

    /// The watermark body: its offset as a little-endian `u64`.
    pub fn serialize(&self) -> (r: Vec<u8>)
        ensures
            r@ == le_bytes(self.offset as nat, 8),
    {
        let mut buf: Vec<u8> = Vec::new();
        append_u64(&mut buf, self.offset);
        assert(buf@ =~= le_bytes(self.offset as nat, 8));
        buf
    }

    /// The name that a listing starts after to begin at the watermark's object.
    pub fn start_from(&self, root_prefix: &str, keyspace: &str, key: &str) -> (r: String)
        ensures
            r@ == key_dir(root_prefix@, keyspace@, key@) + data_o() + zero_padded(
                decimal(self.offset as nat),
                20,
            ) + seq!['-'],
    {
        let mut out: Vec<char> = Vec::new();
        push_key_dir(&mut out, root_prefix, keyspace, key);
        push_data_o(&mut out);
        push_padded(&mut out, self.offset as u128, 20);
        out.push('-');
        string_of(&out)
    }
}

/// The names of a keyspace's objects.
pub struct KeyspacePath {}

impl KeyspacePath {
    /// `<root><keyspace>_config.ini`.
    pub fn config_path(root_prefix: &str, keyspace: &str) -> (r: String)
        ensures
            r@ == root_prefix@ + keyspace@ + seq!['_', 'c', 'o', 'n', 'f', 'i', 'g', '.', 'i', 'n', 'i'],
    {
        let mut out: Vec<char> = Vec::new();
        push_str(&mut out, root_prefix);
        push_str(&mut out, keyspace);
        let ghost mid = out@;
        out.push('_');
        out.push('c');
        out.push('o');
        out.push('n');
        out.push('f');
        out.push('i');
        out.push('g');
        out.push('.');
        out.push('i');
        out.push('n');
        out.push('i');
        assert(out@ =~= mid + seq!['_', 'c', 'o', 'n', 'f', 'i', 'g', '.', 'i', 'n', 'i']);
        string_of(&out)
    }
}

/// The summary of a data object that its name carries.
#[derive(Debug, Clone, Copy, PartialEq, Eq, Structural)]
pub struct KeyPath {
    pub first_offset: u64,
    pub last_offset: u64,
    pub min_timestamp: i64,
    pub max_timestamp: i64,
    pub first_nonce: u128,
    pub next_nonce: u128,
    pub size: u64,
    pub prior_start_offset: u64,
}

/// The name of a data object:
/// `data_o<first:20>-o<last>_t<min_ts>-t<max_ts>_n<first_nonce>-n<next_nonce>_s<size>_p<prior>.bin`.
pub open spec fn key_path_name(kp: KeyPath) -> Seq<char> {
    data_o() + zero_padded(decimal(kp.first_offset as nat), 20) + seq!['-', 'o'] + decimal(
        kp.last_offset as nat,
    ) + seq!['_', 't'] + signed_decimal(kp.min_timestamp as int) + seq!['-', 't'] + signed_decimal(
        kp.max_timestamp as int,
    ) + seq!['_', 'n'] + decimal(kp.first_nonce as nat) + seq!['-', 'n'] + decimal(
        kp.next_nonce as nat,
    ) + seq!['_', 's'] + decimal(kp.size as nat) + seq!['_', 'p'] + decimal(
        kp.prior_start_offset as nat,
    ) + seq!['.', 'b', 'i', 'n']
}

/// The unsigned number that follows `tag` at `i`.
pub open spec fn tagged_number(s: Seq<char>, i: int, tag: Seq<char>) -> Option<(nat, int)> {
    if lit_at(s, i, tag) {
        number_at(s, i + tag.len())
    } else {
        None
    }
}

/// The signed number that follows `tag` at `i`.
pub open spec fn tagged_signed(s: Seq<char>, i: int, tag: Seq<char>) -> Option<(int, int)> {
    if lit_at(s, i, tag) {
        signed_at(s, i + tag.len())
    } else {
        None
    }
}

/// The key path that a data object's name states, where it is well formed and each
/// number fits its field.
pub open spec fn parse_name(s: Seq<char>) -> Option<KeyPath> {
    match tagged_number(s, 0, data_o()) {
        None => None,
        Some((a, i1)) => match tagged_number(s, i1, seq!['-', 'o']) {
            None => None,
            Some((b, i2)) => match tagged_signed(s, i2, seq!['_', 't']) {
                None => None,
                Some((c, i3)) => match tagged_signed(s, i3, seq!['-', 't']) {
                    None => None,
                    Some((d, i4)) => match tagged_number(s, i4, seq!['_', 'n']) {
                        None => None,
                        Some((e, i5)) => match tagged_number(s, i5, seq!['-', 'n']) {
                            None => None,
                            Some((f, i6)) => match tagged_number(s, i6, seq!['_', 's']) {
                                None => None,
                                Some((g, i7)) => match tagged_number(s, i7, seq!['_', 'p']) {
                                    None => None,
                                    Some((h, i8)) => if lit_at(s, i8, seq!['.', 'b', 'i', 'n'])
                                        && i8 + 4 == s.len() && a <= u64::MAX && b <= u64::MAX
                                        && i64::MIN <= c <= i64::MAX && i64::MIN <= d <= i64::MAX
                                        && e <= u128::MAX && f <= u128::MAX && g <= u64::MAX && h
                                        <= u64::MAX {
                                        Some(
                                            KeyPath {
                                                first_offset: a as u64,
                                                last_offset: b as u64,
                                                min_timestamp: c as i64,
                                                max_timestamp: d as i64,
                                                first_nonce: e as u128,
                                                next_nonce: f as u128,
                                                size: g as u64,
                                                prior_start_offset: h as u64,
                                            },
                                        )
                                    } else {
                                        None
                                    },
                                },
                            },
                        },
                    },
                },
            },
        },
    }
}

/// The index of the last `/`, or -1 where there is none.
pub open spec fn last_slash(s: Seq<char>) -> int
    decreases s.len(),
{
    if s.len() == 0 {
        -1
    } else if s.last() == '/' {
        s.len() - 1
    } else {
        last_slash(s.drop_last())
    }
}

/// The key path of an object path: the name after its last `/` must be a data object's.
pub open spec fn parse_path(s: Seq<char>) -> Option<KeyPath> {
    let k = last_slash(s);
    if k < 0 {
        None
    } else {
        parse_name(s.subrange(k + 1, s.len() as int))
    }
}

/// Whether an object holds no record with a nonce: its name then states the same first
/// and next nonce.
pub open spec fn holds_no_nonce(kp: KeyPath) -> bool {
    kp.first_nonce == kp.next_nonce
}

/// Whether an object may hold a record that the filter admits. Forward, an object that
/// holds no nonce passes the nonce bound.
pub open spec fn key_path_matches(kp: KeyPath, f: RecordFilter) -> bool {
    if f.direction == Direction::Forwards {
        f.start_offset <= kp.last_offset && (f.start_nonce < kp.next_nonce || holds_no_nonce(kp))
            && f.start_timestamp <= kp.max_timestamp
    } else {
        f.start_offset >= kp.first_offset && f.start_nonce >= kp.first_nonce && f.start_timestamp
            >= kp.min_timestamp
    }
}

fn push_tag(out: &mut Vec<char>, a: char, b: char)
    ensures
        final(out)@ == old(out)@ + seq![a, b],
{
    out.push(a);
    out.push(b);
    assert(out@ =~= old(out)@ + seq![a, b]);
}

impl KeyPath {
    /// The full object path of a data object.
    pub fn to_path(&self, root_prefix: &str, keyspace: &str, key: &str) -> (r: String)
        ensures
            r@ == key_dir(root_prefix@, keyspace@, key@) + key_path_name(*self),
    {
        let mut out: Vec<char> = Vec::new();
        push_key_dir(&mut out, root_prefix, keyspace, key);
        let ghost dir = out@;
        push_data_o(&mut out);
        push_padded(&mut out, self.first_offset as u128, 20);
        push_tag(&mut out, '-', 'o');
        push_decimal(&mut out, self.last_offset as u128);
        push_tag(&mut out, '_', 't');
        push_signed(&mut out, self.min_timestamp);
        push_tag(&mut out, '-', 't');
        push_signed(&mut out, self.max_timestamp);
        push_tag(&mut out, '_', 'n');
        push_decimal(&mut out, self.first_nonce);
        push_tag(&mut out, '-', 'n');
        push_decimal(&mut out, self.next_nonce);
        push_tag(&mut out, '_', 's');
        push_decimal(&mut out, self.size as u128);
        push_tag(&mut out, '_', 'p');
        push_decimal(&mut out, self.prior_start_offset as u128);
        let ghost before_bin = out@;
        out.push('.');
        out.push('b');
        out.push('i');
        out.push('n');
        assert(out@ =~= before_bin + seq!['.', 'b', 'i', 'n']);
        assert(out@ =~= dir + key_path_name(*self));
        string_of(&out)
    }

    /// `<root><keyspace>/<key>/data_`, the prefix of a key's data objects.
    pub fn prefix_data_only(root_prefix: &str, keyspace: &str, key: &str) -> (r: String)
        ensures
            r@ == key_dir(root_prefix@, keyspace@, key@) + seq!['d', 'a', 't', 'a', '_'],
    {
        let mut out: Vec<char> = Vec::new();
        push_key_dir(&mut out, root_prefix, keyspace, key);
        let ghost mid = out@;
        out.push('d');
        out.push('a');
        out.push('t');
        out.push('a');
        out.push('_');
        assert(out@ =~= mid + seq!['d', 'a', 't', 'a', '_']);
        string_of(&out)
    }

    /// The name that a listing starts after to begin at the object of the watermark.
    pub fn watermark_prefix(root_prefix: &str, keyspace: &str, key: &str, watermark: &Watermark) -> (r:
        String)
        ensures
            r@ == key_dir(root_prefix@, keyspace@, key@) + data_o() + zero_padded(
                decimal(watermark.offset as nat),
                20,
            ),
    {
        let mut out: Vec<char> = Vec::new();
        push_key_dir(&mut out, root_prefix, keyspace, key);
        push_data_o(&mut out);
        push_padded(&mut out, watermark.offset as u128, 20);
        string_of(&out)
    }

    /// The name that a listing starts after to skip the objects that begin at or before
    /// the watermark's offset.
    pub fn after_watermark_prefix(
        root_prefix: &str,
        keyspace: &str,
        key: &str,
        watermark: &Watermark,
    ) -> (r: String)
        ensures
            r@ == after_offset_name(root_prefix@, keyspace@, key@, watermark.offset),
    {
        KeyPath::after_offset_prefix(root_prefix, keyspace, key, watermark.offset)
    }

    /// The name that a listing starts after to skip the objects that begin at or before
    /// `offset`.
    pub fn after_offset_prefix(root_prefix: &str, keyspace: &str, key: &str, offset: u64) -> (r:
        String)
        ensures
            r@ == after_offset_name(root_prefix@, keyspace@, key@, offset),
    {
        let mut out: Vec<char> = Vec::new();
        push_key_dir(&mut out, root_prefix, keyspace, key);
        push_data_o(&mut out);
        if offset != 0 {
            push_padded(&mut out, offset as u128 + 1, 20);
        }
        string_of(&out)
    }

    /// What the object says of its key when it is the key's last object.
    pub fn to_metadata(&self) -> (r: KeyMetadata)
        requires
            self.last_offset < u64::MAX,
        ensures
            r.next_offset == self.last_offset + 1,
            r.next_nonce == self.next_nonce,
    {
        KeyMetadata { next_offset: self.last_offset + 1, next_nonce: self.next_nonce }
    }

    /// Whether the object may hold a record that the filter admits.
    pub fn matches(&self, filter: &RecordFilter) -> (r: bool)
        ensures
            r == key_path_matches(*self, *filter),
    {
        match filter.direction {
            Direction::Forwards => {
                filter.start_offset <= self.last_offset && (filter.start_nonce < self.next_nonce
                    || self.first_nonce == self.next_nonce) && filter.start_timestamp
                    <= self.max_timestamp
            },
            Direction::Backwards => {
                filter.start_offset >= self.first_offset && filter.start_nonce >= self.first_nonce
                    && filter.start_timestamp >= self.min_timestamp
            },
        }
    }
}

/// `<root><keyspace>/<key>/data_o`, followed by the zero-padded `offset + 1` unless
/// `offset` is zero.
pub open spec fn after_offset_name(root: Seq<char>, keyspace: Seq<char>, key: Seq<char>, offset: u64) -> Seq<char> {
    if offset == 0 {
        key_dir(root, keyspace, key) + data_o()
    } else {
        key_dir(root, keyspace, key) + data_o() + zero_padded(decimal((offset + 1) as nat), 20)
    }
}

/// Whether `t` is written at `i`.
fn lit_here(s: &Vec<char>, i: usize, t: &Vec<char>) -> (r: bool)
    requires
        i <= s@.len(),
    ensures
        r == lit_at(s@, i as int, t@),
{
    let n = s.len();
    if t.len() > n - i {
        return false;
    }
    let mut k: usize = 0;
    while k < t.len()
        invariant
            n == s@.len(),
            k <= t@.len(),
            i + t@.len() <= s@.len(),
            forall|j: int| 0 <= j < k ==> s@[i + j] == #[trigger] t@[j],
        decreases t@.len() - k,
    {
        if s[i + k] != t[k] {
            assert(s@.subrange(i as int, i + t@.len())[k as int] != t@[k as int]);
            return false;
        }
        k = k + 1;
    }
    assert(s@.subrange(i as int, i + t@.len()) =~= t@);
    true
}

/// The unsigned number after `tag` at `i`, where it fits in a `u128`.
fn read_tagged_number(s: &Vec<char>, i: usize, tag: &Vec<char>) -> (r: Option<(u128, usize)>)
    requires
        i <= s@.len(),
    ensures
        r matches Some((v, e)) ==> tagged_number(s@, i as int, tag@) == Some((v as nat, e as int))
            && e <= s@.len(),
        r is None ==> (tagged_number(s@, i as int, tag@) matches Some((v, e)) ==> v > u128::MAX),
{
    let _n = s.len();
    if !lit_here(s, i, tag) {
        return None;
    }
    read_number(s, i + tag.len())
}

/// The signed number after `tag` at `i`, where it fits in an `i64`.
fn read_tagged_signed(s: &Vec<char>, i: usize, tag: &Vec<char>) -> (r: Option<(i64, usize)>)
    requires
        i <= s@.len(),
    ensures
        r matches Some((v, e)) ==> tagged_signed(s@, i as int, tag@) == Some((v as int, e as int))
            && e <= s@.len(),
        r is None ==> (tagged_signed(s@, i as int, tag@) matches Some((v, e)) ==> !(i64::MIN <= v
            <= i64::MAX)),
{
    let _n = s.len();
    if !lit_here(s, i, tag) {
        return None;
    }
    let j = i + tag.len();
    if j < s.len() && s[j] == '-' {
        match read_number(s, j + 1) {
            None => None,
            Some((v, e)) => if v <= 0x8000_0000_0000_0000 {
                Some(((0i128 - v as i128) as i64, e))
            } else {
                None
            },
        }
    } else {
        match read_number(s, j) {
            None => None,
            Some((v, e)) => if v <= 0x7fff_ffff_ffff_ffff {
                Some((v as i64, e))
            } else {
                None
            },
        }
    }
}

fn tag_of(a: char, b: char) -> (r: Vec<char>)
    ensures
        r@ == seq![a, b],
{
    let mut v: Vec<char> = Vec::new();
    push_tag(&mut v, a, b);
    v
}

/// Reads the key path that a data object's name states.
pub fn parse_key_path_name(s: &Vec<char>) -> (r: Option<KeyPath>)
    ensures
        r == parse_name(s@),
{
    let mut d: Vec<char> = Vec::new();
    push_data_o(&mut d);
    let (a, i1) = match read_tagged_number(s, 0, &d) {
        Some(x) => x,
        None => return None,
    };
    let (b, i2) = match read_tagged_number(s, i1, &tag_of('-', 'o')) {
        Some(x) => x,
        None => return None,
    };
    let (c, i3) = match read_tagged_signed(s, i2, &tag_of('_', 't')) {
        Some(x) => x,
        None => return None,
    };
    let (dd, i4) = match read_tagged_signed(s, i3, &tag_of('-', 't')) {
        Some(x) => x,
        None => return None,
    };
    let (e, i5) = match read_tagged_number(s, i4, &tag_of('_', 'n')) {
        Some(x) => x,
        None => return None,
    };
    let (f, i6) = match read_tagged_number(s, i5, &tag_of('-', 'n')) {
        Some(x) => x,
        None => return None,
    };
    let (g, i7) = match read_tagged_number(s, i6, &tag_of('_', 's')) {
        Some(x) => x,
        None => return None,
    };
    let (h, i8) = match read_tagged_number(s, i7, &tag_of('_', 'p')) {
        Some(x) => x,
        None => return None,
    };
    let mut bin: Vec<char> = Vec::new();
    push_tag(&mut bin, '.', 'b');
    push_tag(&mut bin, 'i', 'n');
    assert(bin@ =~= seq!['.', 'b', 'i', 'n']);
    if !lit_here(s, i8, &bin) || s.len() - i8 != 4 {
        return None;
    }
    if a > u64::MAX as u128 || b > u64::MAX as u128 || g > u64::MAX as u128 || h > u64::MAX as u128 {
        return None;
    }
    Some(
        KeyPath {
            first_offset: a as u64,
            last_offset: b as u64,
            min_timestamp: c,
            max_timestamp: dd,
            first_nonce: e,
            next_nonce: f,
            size: g as u64,
            prior_start_offset: h as u64,
        },
    )
}

/// Reads the key paths of object paths.
pub struct KeyPathParser {}

impl KeyPathParser {
    pub fn new() -> Self {
        KeyPathParser {  }
    }

    /// The key path of an object path, where the name after its last `/` is a data object's.
    #[verifier::rlimit(50)]
    pub fn parse(&self, path: &str) -> (r: Option<KeyPath>)
        ensures
            r == parse_path(path@),
    {
        let s = chars_of(path);
        let mut k: usize = s.len();
        assert(s@.subrange(0, k as int) =~= s@);
        while k > 0 && s[k - 1] != '/'
            invariant
                k <= s@.len(),
                last_slash(s@) == last_slash(s@.subrange(0, k as int)),
            decreases k,
        {
            assert(s@.subrange(0, k as int).drop_last() =~= s@.subrange(0, k - 1));
            k = k - 1;
        }
        if k == 0 {
            assert(s@.subrange(0, 0) =~= Seq::<char>::empty());
            return None;
        }
        assert(s@.subrange(0, k as int).drop_last() =~= s@.subrange(0, k - 1));
        let mut name: Vec<char> = Vec::new();
        let mut i: usize = k;
        while i < s.len()
            invariant
                k <= i <= s@.len(),
                name@ == s@.subrange(k as int, i as int),
            decreases s@.len() - i,
        {
            name.push(s[i]);
            assert(name@ =~= s@.subrange(k as int, i + 1));
            i = i + 1;
        }
        parse_key_path_name(&name)
    }

    /// The key path of an object path, or `BadData` where it names no data object.
    pub fn parse_or_error(&self, path: &str) -> (r: Result<KeyPath, StoreError>)
        ensures
            parse_path(path@) matches Some(kp) ==> r == Ok::<KeyPath, StoreError>(kp),
            parse_path(path@) is None ==> r matches Err(StoreError::BadData(_)),
    {
        match self.parse(path) {
            None => Err(StoreError::BadData(message("invalid key path"))),
            Some(v) => Ok(v),
        }
    }
}

} // verus!
