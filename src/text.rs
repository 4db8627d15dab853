//! Decimal numbers written into and read out of character sequences.
use vstd::prelude::*;

verus! {

broadcast use vstd::seq_lib::group_seq_properties;

/// Relies on `str::chars`, collected: the characters of the string, in order.
#[verifier::external_body]
pub(crate) fn chars_of(s: &str) -> (r: Vec<char>)
    ensures
        r@ == s@,
{
    s.chars().collect()
}

/// Relies on `String`'s `FromIterator<&char>`: the string of the characters, in order.
#[verifier::external_body]
pub(crate) fn string_of(v: &Vec<char>) -> (r: String)
    ensures
        r@ == v@,
{
    v.iter().collect()
}

/// The character of a decimal digit.
pub open spec fn digit_char(d: nat) -> char {
    (d + 48) as char
}

/// Whether a character is an ASCII decimal digit.
pub open spec fn is_digit(c: char) -> bool {
    '0' <= c && c <= '9'
}

/// The value of a decimal digit character.
pub open spec fn digit_value(c: char) -> nat {
    (c as int - 48) as nat
}

/// The decimal text of `n`, without leading zeros.
pub open spec fn decimal(n: nat) -> Seq<char>
    decreases n,
{
    if n < 10 {
        seq![digit_char(n)]
    } else {
        decimal(n / 10).push(digit_char(n % 10))
    }
}

/// The decimal text of a signed value, with a leading `-` when negative.
pub open spec fn signed_decimal(v: int) -> Seq<char> {
    if v < 0 {
        seq!['-'] + decimal((-v) as nat)
    } else {
        decimal(v as nat)
    }
}

/// `s` preceded by as many `0` as make it `width` long.
pub open spec fn zero_padded(s: Seq<char>, width: nat) -> Seq<char> {
    if s.len() >= width {
        s
    } else {
        Seq::new((width - s.len()) as nat, |i: int| '0') + s
    }
}

/// The value of a run of decimal digits.
pub open spec fn digits_value(s: Seq<char>) -> nat
    decreases s.len(),
{
    if s.len() == 0 {
        0
    } else {
        digits_value(s.drop_last()) * 10 + digit_value(s.last())
    }
}

/// The index of the first character at or after `i` that is not a digit.
pub open spec fn run_end(s: Seq<char>, i: int) -> int
    decreases s.len() - i,
{
    if 0 <= i < s.len() && is_digit(s[i]) {
        run_end(s, i + 1)
    } else {
        i
    }
}

/// The number written at `i` and the index after it, where at least one digit stands there.
pub open spec fn number_at(s: Seq<char>, i: int) -> Option<(nat, int)> {
    let e = run_end(s, i);
    if e > i {
        Some((digits_value(s.subrange(i, e)), e))
    } else {
        None
    }
}

/// The signed number written at `i`, an optional `-` then digits, and the index after it.
pub open spec fn signed_at(s: Seq<char>, i: int) -> Option<(int, int)> {
    if 0 <= i < s.len() && s[i] == '-' {
        match number_at(s, i + 1) {
            Some((v, e)) => Some((-v, e)),
            None => None,
        }
    } else {
        match number_at(s, i) {
            Some((v, e)) => Some((v as int, e)),
            None => None,
        }
    }
}

/// Whether `t` is written at `i`.
pub open spec fn lit_at(s: Seq<char>, i: int, t: Seq<char>) -> bool {
    0 <= i && i + t.len() <= s.len() && s.subrange(i, i + t.len()) == t
}

proof fn lemma_run_end_bounds(s: Seq<char>, i: int)
    requires
        0 <= i <= s.len(),
    ensures
        i <= run_end(s, i) <= s.len(),
        forall|k: int| i <= k < run_end(s, i) ==> is_digit(#[trigger] s[k]),
        run_end(s, i) < s.len() ==> !is_digit(s[run_end(s, i)]),
    decreases s.len() - i,
{
    if i < s.len() && is_digit(s[i]) {
        lemma_run_end_bounds(s, i + 1);
    }
}

proof fn lemma_run_end_step(s: Seq<char>, i: int, k: int)
    requires
        0 <= i <= k <= run_end(s, i),
    ensures
        run_end(s, k) == run_end(s, i),
    decreases k - i,
{
    if i < k {
        lemma_run_end_step(s, i + 1, k);
    }
}

/// Appends the decimal text of `n`.
pub fn push_decimal(out: &mut Vec<char>, n: u128)
    ensures
        final(out)@ == old(out)@ + decimal(n as nat),
    decreases n,
{
    if n >= 10 {
        push_decimal(out, n / 10);
    }
    let d: u8 = (n % 10) as u8;
    let c: char = (d + 48) as char;
    assert(c == digit_char((n % 10) as nat));
    out.push(c);
}

/// Appends the decimal text of `n`, zero-padded to `width` characters.
pub fn push_padded(out: &mut Vec<char>, n: u128, width: usize)
    ensures
        final(out)@ == old(out)@ + zero_padded(decimal(n as nat), width as nat),
{
    let mut digits: Vec<char> = Vec::new();
    push_decimal(&mut digits, n);
    assert(digits@ =~= decimal(n as nat));
    let mut pad: usize = 0;
    let ghost start = out@;
    if digits.len() < width {
        let missing = width - digits.len();
        while pad < missing
            invariant
                pad <= missing,
                out@ == start + Seq::new(pad as nat, |i: int| '0'),
            decreases missing - pad,
        {
            out.push('0');
            assert(out@ =~= start + Seq::new((pad + 1) as nat, |i: int| '0'));
            pad = pad + 1;
        }
    }
    let ghost mid = out@;
    let mut i: usize = 0;
    while i < digits.len()
        invariant
            i <= digits@.len(),
            out@ == mid + digits@.subrange(0, i as int),
        decreases digits@.len() - i,
    {
        out.push(digits[i]);
        assert(out@ =~= mid + digits@.subrange(0, i + 1));
        i = i + 1;
    }
    assert(digits@.subrange(0, digits@.len() as int) =~= digits@);
    assert(out@ =~= old(out)@ + zero_padded(decimal(n as nat), width as nat));
}

/// Appends the decimal text of a signed value.
pub fn push_signed(out: &mut Vec<char>, v: i64)
    ensures
        final(out)@ == old(out)@ + signed_decimal(v as int),
{
    if v < 0 {
        out.push('-');
        let m: u128 = (0i128 - (v as i128)) as u128;
        push_decimal(out, m);
        assert(out@ =~= old(out)@ + signed_decimal(v as int));
    } else {
        push_decimal(out, v as u128);
    }
}

/// Appends every character of `t`.
pub fn push_all(out: &mut Vec<char>, t: &Vec<char>)
    ensures
        final(out)@ == old(out)@ + t@,
{
    let mut i: usize = 0;
    while i < t.len()
        invariant
            i <= t@.len(),
            out@ == old(out)@ + t@.subrange(0, i as int),
        decreases t@.len() - i,
    {
        out.push(t[i]);
        assert(out@ =~= old(out)@ + t@.subrange(0, i + 1));
        i = i + 1;
    }
    assert(t@.subrange(0, t@.len() as int) =~= t@);
}

/// Appends the characters of a string.
pub fn push_str(out: &mut Vec<char>, s: &str)
    ensures
        final(out)@ == old(out)@ + s@,
{
    let cs = chars_of(s);
    push_all(out, &cs);
}

/// Reads the number written at `i`, where it fits in a `u128`.
pub fn read_number(s: &Vec<char>, i: usize) -> (r: Option<(u128, usize)>)
    requires
        i <= s@.len(),
    ensures
        r matches Some((v, e)) ==> number_at(s@, i as int) == Some((v as nat, e as int)) && e
            <= s@.len(),
        r is None ==> (number_at(s@, i as int) matches Some((v, e)) ==> v > u128::MAX),
{
    let len = s.len();
    let mut k: usize = i;
    let mut v: u128 = 0;
    let mut over: bool = false;
    proof {
        lemma_run_end_bounds(s@, i as int);
    }
    assert(s@.subrange(i as int, i as int) =~= Seq::<char>::empty());
    while k < len && '0' <= s[k] && s[k] <= '9'
        invariant
            len == s@.len(),
            i <= k <= len,
            k <= run_end(s@, i as int),
            forall|j: int| i <= j < k ==> is_digit(#[trigger] s@[j]),
            !over ==> v == digits_value(s@.subrange(i as int, k as int)),
            over ==> digits_value(s@.subrange(i as int, k as int)) > u128::MAX,
        decreases len - k,
    {
        let c = s[k];
        let d: u128 = (c as u32 - 48) as u128;
        let ghost sub = s@.subrange(i as int, k + 1);
        assert(sub.drop_last() =~= s@.subrange(i as int, k as int));
        assert(d == digit_value(c));
        if !over {
            if v > (u128::MAX - d) / 10 {
                over = true;
                assert(v * 10 + d > u128::MAX) by (nonlinear_arith)
                    requires
                        v > (u128::MAX - d) / 10,
                        d <= 9,
                ;
            } else {
                assert(v * 10 + d <= u128::MAX) by (nonlinear_arith)
                    requires
                        v <= (u128::MAX - d) / 10,
                        d <= 9,
                ;
                v = v * 10 + d;
            }
        } else {
            let ghost p = digits_value(s@.subrange(i as int, k as int));
            assert(p * 10 + d > u128::MAX) by (nonlinear_arith)
                requires
                    p > u128::MAX,
            ;
        }
        proof {
            lemma_run_end_step(s@, i as int, k as int);
            lemma_run_end_bounds(s@, k + 1);
        }
        k = k + 1;
    }
    proof {
        lemma_run_end_step(s@, i as int, k as int);
    }
    if k == i || over {
        None
    } else {
        Some((v, k))
    }
}

} // verus!
