//! The object-name codec read back: a data object's path parses to the key path it was
//! written from.
use vstd::prelude::*;
use crate::keypath::{
    data_o, key_dir, key_path_name, last_slash, parse_name, parse_path, tagged_number,
    tagged_signed, KeyPath,
};
use crate::text::{
    decimal, digits_value, is_digit, number_at, run_end, signed_decimal, zero_padded,
};

verus! {

proof fn lemma_decimal(n: nat)
    ensures
        decimal(n).len() > 0,
        forall|i: int| 0 <= i < decimal(n).len() ==> is_digit(#[trigger] decimal(n)[i]),
        digits_value(decimal(n)) == n,
    decreases n,
{
    assert((n % 10 + 48) as char as int == n % 10 + 48);
    if n < 10 {
        let d = decimal(n);
        assert(n % 10 == n);
        assert(d.drop_last() =~= Seq::<char>::empty());
        assert(digits_value(d.drop_last()) == 0);
    } else {
        vstd::arithmetic::div_mod::lemma_fundamental_div_mod(n as int, 10);
        lemma_decimal(n / 10);
        let d = decimal(n);
        assert(d.drop_last() =~= decimal(n / 10));
        assert forall|i: int| 0 <= i < d.len() implies is_digit(#[trigger] d[i]) by {
            if i < d.len() - 1 {
                assert(d[i] == decimal(n / 10)[i]);
            }
        }
    }
}

proof fn lemma_zeros_value(k: nat, d: Seq<char>)
    ensures
        digits_value(Seq::new(k, |i: int| '0') + d) == digits_value(d),
    decreases d.len(), k,
{
    let z = Seq::new(k, |i: int| '0');
    if d.len() == 0 {
        assert(z + d =~= z);
        if k > 0 {
            assert(z.drop_last() =~= Seq::new((k - 1) as nat, |i: int| '0'));
            lemma_zeros_value((k - 1) as nat, Seq::<char>::empty());
            assert(Seq::new((k - 1) as nat, |i: int| '0') + Seq::<char>::empty() =~= Seq::new((k - 1) as nat, |i: int| '0'));
        }
    } else {
        assert((z + d).drop_last() =~= z + d.drop_last());
        lemma_zeros_value(k, d.drop_last());
    }
}

proof fn lemma_padded(n: nat, w: nat)
    ensures
        zero_padded(decimal(n), w).len() > 0,
        forall|i: int| 0 <= i < zero_padded(decimal(n), w).len() ==> is_digit(#[trigger] zero_padded(decimal(n), w)[i]),
        digits_value(zero_padded(decimal(n), w)) == n,
{
    lemma_decimal(n);
    let d = decimal(n);
    if d.len() < w {
        let z = Seq::new((w - d.len()) as nat, |i: int| '0');
        lemma_zeros_value((w - d.len()) as nat, d);
        assert forall|i: int| 0 <= i < (z + d).len() implies is_digit(#[trigger] (z + d)[i]) by {
            if i >= z.len() {
                assert((z + d)[i] == d[i - z.len()]);
            }
        }
    }
}

proof fn lemma_run_over(s: Seq<char>, i: int, j: int)
    requires
        0 <= i <= j <= s.len(),
        forall|k: int| i <= k < j ==> is_digit(#[trigger] s[k]),
        j == s.len() || !is_digit(s[j]),
    ensures
        run_end(s, i) == j,
    decreases j - i,
{
    if i < j {
        lemma_run_over(s, i + 1, j);
    }
}

/// Whether `x` begins `s`.
spec fn begins(x: Seq<char>, s: Seq<char>) -> bool {
    x.len() <= s.len() && s.subrange(0, x.len() as int) == x
}

proof fn lemma_begins_shorter(x: Seq<char>, y: Seq<char>, s: Seq<char>)
    requires
        begins(x + y, s),
    ensures
        begins(x, s),
        y.len() > 0 && x.len() < s.len() ==> s[x.len() as int] == y[0],
{
    assert(s.subrange(0, x.len() as int) =~= (x + y).subrange(0, x.len() as int));
    assert((x + y).subrange(0, x.len() as int) =~= x);
    if y.len() > 0 {
        assert(s[x.len() as int] == s.subrange(0, (x + y).len() as int)[x.len() as int]);
    }
}

/// Whether no digit follows index `e` of `s`.
spec fn ends_run(s: Seq<char>, e: int) -> bool {
    e == s.len() || (e < s.len() && !is_digit(s[e]))
}

/// `d`, a run of digits, stands at `i` in `s` and is followed by no digit.
proof fn lemma_number_here(s: Seq<char>, i: int, d: Seq<char>)
    requires
        0 <= i,
        i + d.len() <= s.len(),
        s.subrange(i, i + d.len()) == d,
        d.len() > 0,
        forall|k: int| 0 <= k < d.len() ==> is_digit(#[trigger] d[k]),
        ends_run(s, i + d.len()),
    ensures
        number_at(s, i) == Some((digits_value(d), i + d.len())),
{
    let j = i + d.len();
    assert forall|k: int| i <= k < j implies is_digit(#[trigger] s[k]) by {
        assert(s[k] == s.subrange(i, j)[k - i]);
    }
    lemma_run_over(s, i, j);
}

proof fn lemma_tagged_number(s: Seq<char>, p: Seq<char>, tag: Seq<char>, d: Seq<char>)
    requires
        begins(p + tag + d, s),
        d.len() > 0,
        forall|k: int| 0 <= k < d.len() ==> is_digit(#[trigger] d[k]),
        ends_run(s, (p + tag + d).len() as int),
    ensures
        tagged_number(s, p.len() as int, tag) == Some((digits_value(d), (p + tag + d).len() as int)),
{
    let i = p.len() as int;
    let j = i + tag.len();
    let pre = s.subrange(0, (p + tag + d).len() as int);
    assert(s.subrange(i, j) =~= pre.subrange(i, j));
    assert(pre.subrange(i, j) =~= tag);
    assert(s.subrange(j, j + d.len()) =~= pre.subrange(j, j + d.len()));
    assert(pre.subrange(j, j + d.len()) =~= d);
    lemma_number_here(s, j, d);
}

proof fn lemma_tagged_signed(s: Seq<char>, p: Seq<char>, tag: Seq<char>, v: i64)
    requires
        begins(p + tag + signed_decimal(v as int), s),
        ends_run(s, (p + tag + signed_decimal(v as int)).len() as int),
    ensures
        tagged_signed(s, p.len() as int, tag) == Some((v as int, (p + tag + signed_decimal(v as int)).len() as int)),
{
    let sd = signed_decimal(v as int);
    let i = p.len() as int;
    let j = i + tag.len();
    let pre = s.subrange(0, (p + tag + sd).len() as int);
    assert(s.subrange(i, j) =~= pre.subrange(i, j));
    assert(pre.subrange(i, j) =~= tag);
    if v < 0 {
        let d = decimal((-v) as nat);
        lemma_decimal((-v) as nat);
        assert(s[j] == pre[j]);
        assert(pre[j] == sd[0]);
        assert(s.subrange(j + 1, j + 1 + d.len()) =~= pre.subrange(j + 1, j + 1 + d.len()));
        assert(pre.subrange(j + 1, j + 1 + d.len()) =~= d);
        lemma_number_here(s, j + 1, d);
    } else {
        let d = decimal(v as nat);
        lemma_decimal(v as nat);
        assert(s.subrange(j, j + d.len()) =~= pre.subrange(j, j + d.len()));
        assert(pre.subrange(j, j + d.len()) =~= d);
        assert(s[j] == d[0]);
        lemma_number_here(s, j, d);
    }
}

proof fn lemma_no_slash(s: Seq<char>, t: Seq<char>)
    requires
        forall|i: int| 0 <= i < t.len() ==> #[trigger] t[i] != '/',
        s.len() > 0,
        s.last() == '/',
    ensures
        last_slash(s + t) == s.len() - 1,
    decreases t.len(),
{
    if t.len() == 0 {
        assert(s + t =~= s);
    } else {
        assert((s + t).drop_last() =~= s + t.drop_last());
        lemma_no_slash(s, t.drop_last());
    }
}

spec fn slash_free(s: Seq<char>) -> bool {
    forall|i: int| 0 <= i < s.len() ==> #[trigger] s[i] != '/'
}

proof fn lemma_slash_free_concat(a: Seq<char>, b: Seq<char>)
    requires
        slash_free(a),
        slash_free(b),
    ensures
        slash_free(a + b),
{
    assert forall|i: int| 0 <= i < (a + b).len() implies #[trigger] (a + b)[i] != '/' by {
        if i < a.len() {
            assert((a + b)[i] == a[i]);
        } else {
            assert((a + b)[i] == b[i - a.len()]);
        }
    }
}

proof fn lemma_digits_slash_free(d: Seq<char>)
    requires
        forall|i: int| 0 <= i < d.len() ==> is_digit(#[trigger] d[i]),
    ensures
        slash_free(d),
{
    assert forall|i: int| 0 <= i < d.len() implies #[trigger] d[i] != '/' by {
        assert(is_digit(d[i]));
    }
}

proof fn lemma_signed_slash_free(v: int)
    ensures
        slash_free(signed_decimal(v)),
{
    if v < 0 {
        lemma_decimal((-v) as nat);
        lemma_digits_slash_free(decimal((-v) as nat));
        lemma_slash_free_concat(seq!['-'], decimal((-v) as nat));
    } else {
        lemma_decimal(v as nat);
        lemma_digits_slash_free(decimal(v as nat));
    }
}

proof fn lemma_pair_slash_free(a: char, b: char)
    requires
        a != '/',
        b != '/',
    ensures
        slash_free(seq![a, b]),
{
    let t = seq![a, b];
    assert forall|i: int| 0 <= i < 2 implies #[trigger] t[i] != '/' by {
        if i == 0 {
        } else {
        }
    }
}

proof fn lemma_append_slash_free(a: Seq<char>, t: Seq<char>, d: Seq<char>)
    requires
        slash_free(a),
        slash_free(t),
        slash_free(d),
    ensures
        slash_free(a + t + d),
{
    lemma_slash_free_concat(a, t);
    lemma_slash_free_concat(a + t, d);
}

proof fn lemma_name_has_no_slash(kp: KeyPath)
    ensures
        forall|i: int| 0 <= i < key_path_name(kp).len() ==> #[trigger] key_path_name(kp)[i] != '/',
{
    let fo = zero_padded(decimal(kp.first_offset as nat), 20);
    let lo = decimal(kp.last_offset as nat);
    let a = signed_decimal(kp.min_timestamp as int);
    let b = signed_decimal(kp.max_timestamp as int);
    let f_n = decimal(kp.first_nonce as nat);
    let n_n = decimal(kp.next_nonce as nat);
    let sz = decimal(kp.size as nat);
    let pr = decimal(kp.prior_start_offset as nat);
    lemma_padded(kp.first_offset as nat, 20);
    lemma_decimal(kp.last_offset as nat);
    lemma_decimal(kp.first_nonce as nat);
    lemma_decimal(kp.next_nonce as nat);
    lemma_decimal(kp.size as nat);
    lemma_decimal(kp.prior_start_offset as nat);
    lemma_digits_slash_free(fo);
    lemma_digits_slash_free(lo);
    lemma_digits_slash_free(f_n);
    lemma_digits_slash_free(n_n);
    lemma_digits_slash_free(sz);
    lemma_digits_slash_free(pr);
    lemma_signed_slash_free(kp.min_timestamp as int);
    lemma_signed_slash_free(kp.max_timestamp as int);
    lemma_pair_slash_free('d', 'a');
    lemma_pair_slash_free('t', 'a');
    lemma_pair_slash_free('_', 'o');
    lemma_pair_slash_free('-', 'o');
    lemma_pair_slash_free('_', 't');
    lemma_pair_slash_free('-', 't');
    lemma_pair_slash_free('_', 'n');
    lemma_pair_slash_free('-', 'n');
    lemma_pair_slash_free('_', 's');
    lemma_pair_slash_free('_', 'p');
    lemma_pair_slash_free('.', 'b');
    lemma_pair_slash_free('i', 'n');
    lemma_append_slash_free(seq!['d', 'a'], seq!['t', 'a'], seq!['_', 'o']);
    assert(data_o() =~= seq!['d', 'a'] + seq!['t', 'a'] + seq!['_', 'o']);
    lemma_slash_free_concat(data_o(), fo);
    let x1 = data_o() + fo;
    lemma_append_slash_free(x1, seq!['-', 'o'], lo);
    let x2 = x1 + seq!['-', 'o'] + lo;
    lemma_append_slash_free(x2, seq!['_', 't'], a);
    let x3 = x2 + seq!['_', 't'] + a;
    lemma_append_slash_free(x3, seq!['-', 't'], b);
    let x4 = x3 + seq!['-', 't'] + b;
    lemma_append_slash_free(x4, seq!['_', 'n'], f_n);
    let x5 = x4 + seq!['_', 'n'] + f_n;
    lemma_append_slash_free(x5, seq!['-', 'n'], n_n);
    let x6 = x5 + seq!['-', 'n'] + n_n;
    lemma_append_slash_free(x6, seq!['_', 's'], sz);
    let x7 = x6 + seq!['_', 's'] + sz;
    lemma_append_slash_free(x7, seq!['_', 'p'], pr);
    let x8 = x7 + seq!['_', 'p'] + pr;
    lemma_append_slash_free(x8, seq!['.', 'b'], seq!['i', 'n']);
    assert(x8 + seq!['.', 'b'] + seq!['i', 'n'] =~= key_path_name(kp));
}

/// The name of a data object parses back to the key path it was written from.
#[verifier::rlimit(100)]
pub proof fn lemma_key_path_name_round_trip(kp: KeyPath)
    ensures
        parse_name(key_path_name(kp)) == Some(kp),
{
    let fo = zero_padded(decimal(kp.first_offset as nat), 20);
    let lo = decimal(kp.last_offset as nat);
    let a = signed_decimal(kp.min_timestamp as int);
    let b = signed_decimal(kp.max_timestamp as int);
    let f_n = decimal(kp.first_nonce as nat);
    let n_n = decimal(kp.next_nonce as nat);
    let sz = decimal(kp.size as nat);
    let pr = decimal(kp.prior_start_offset as nat);
    let t_o = seq!['-', 'o'];
    let t_t = seq!['_', 't'];
    let t_mt = seq!['-', 't'];
    let t_n = seq!['_', 'n'];
    let t_mn = seq!['-', 'n'];
    let t_s = seq!['_', 's'];
    let t_p = seq!['_', 'p'];
    let bin = seq!['.', 'b', 'i', 'n'];
    let s = key_path_name(kp);
    lemma_padded(kp.first_offset as nat, 20);
    lemma_decimal(kp.last_offset as nat);
    lemma_decimal(kp.first_nonce as nat);
    lemma_decimal(kp.next_nonce as nat);
    lemma_decimal(kp.size as nat);
    lemma_decimal(kp.prior_start_offset as nat);
    let pre0 = Seq::<char>::empty();
    let pre1 = data_o() + fo;
    let pre2 = pre1 + t_o + lo;
    let pre3 = pre2 + t_t + a;
    let pre4 = pre3 + t_mt + b;
    let pre5 = pre4 + t_n + f_n;
    let pre6 = pre5 + t_mn + n_n;
    let pre7 = pre6 + t_s + sz;
    let pre8 = pre7 + t_p + pr;
    assert(pre0 + data_o() + fo =~= pre1);
    assert(s == pre8 + bin);
    assert(s.subrange(0, s.len() as int) =~= s);
    assert(begins(pre8 + bin, s));
    lemma_begins_shorter(pre8, bin, s);
    lemma_begins_shorter(pre7 + t_p, pr, s);
    lemma_begins_shorter(pre7, t_p, s);
    lemma_begins_shorter(pre6 + t_s, sz, s);
    lemma_begins_shorter(pre6, t_s, s);
    lemma_begins_shorter(pre5 + t_mn, n_n, s);
    lemma_begins_shorter(pre5, t_mn, s);
    lemma_begins_shorter(pre4 + t_n, f_n, s);
    lemma_begins_shorter(pre4, t_n, s);
    lemma_begins_shorter(pre3 + t_mt, b, s);
    lemma_begins_shorter(pre3, t_mt, s);
    lemma_begins_shorter(pre2 + t_t, a, s);
    lemma_begins_shorter(pre2, t_t, s);
    lemma_begins_shorter(pre1 + t_o, lo, s);
    lemma_begins_shorter(pre1, t_o, s);
    lemma_tagged_number(s, pre0, data_o(), fo);
    lemma_tagged_number(s, pre1, t_o, lo);
    lemma_tagged_signed(s, pre2, t_t, kp.min_timestamp);
    lemma_tagged_signed(s, pre3, t_mt, kp.max_timestamp);
    lemma_tagged_number(s, pre4, t_n, f_n);
    lemma_tagged_number(s, pre5, t_mn, n_n);
    lemma_tagged_number(s, pre6, t_s, sz);
    lemma_tagged_number(s, pre7, t_p, pr);
    assert(s.subrange(pre8.len() as int, pre8.len() as int + 4) =~= bin);
}

/// The path of a data object parses back to the key path it was written from, whatever
/// the prefix, keyspace and key.
proof fn lemma_path_of_name(dir: Seq<char>, name: Seq<char>, kp: KeyPath)
    requires
        dir.len() > 0,
        dir.last() == '/',
        forall|i: int| 0 <= i < name.len() ==> #[trigger] name[i] != '/',
        parse_name(name) == Some(kp),
    ensures
        parse_path(dir + name) == Some(kp),
{
    lemma_no_slash(dir, name);
    assert((dir + name).subrange(dir.len() as int, (dir + name).len() as int) =~= name);
}

pub proof fn lemma_key_path_round_trip(root: Seq<char>, keyspace: Seq<char>, key: Seq<char>, kp: KeyPath)
    ensures
        parse_path(key_dir(root, keyspace, key) + key_path_name(kp)) == Some(kp),
{
    lemma_key_path_name_round_trip(kp);
    lemma_name_has_no_slash(kp);
    lemma_path_of_name(key_dir(root, keyspace, key), key_path_name(kp), kp);
}

} // verus!
