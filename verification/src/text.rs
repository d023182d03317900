//! Byte-string text of numbers: decimal parsing (for string-to-number
//! coercion) and decimal rendering (for concatenation), plus the
//! lexicographic byte order used by string comparison.

use vstd::prelude::*;

use crate::float::fmt_f64_bits;

verus! {

/// An ASCII decimal digit.
pub open spec fn is_digit(c: u8) -> bool {
    48 <= c <= 57
}

/// Every byte is an ASCII decimal digit.
pub open spec fn all_digits(s: Seq<u8>) -> bool {
    forall|i: int| 0 <= i < s.len() ==> is_digit(#[trigger] s[i])
}

/// The unbounded integer a digit string denotes.
pub open spec fn digits_val(s: Seq<u8>) -> int
    decreases s.len(),
{
    if s.len() == 0 {
        0
    } else {
        digits_val(s.drop_last()) * 10 + (s.last() - 48)
    }
}

/// What parsing an optionally signed decimal integer returns: the value
/// when the bytes are a sign followed by one or more digits and the value
/// fits in an `i64`; otherwise nothing. This is the grammar of Rust's
/// integer `FromStr`.
pub open spec fn parse_i64_spec(s: Seq<u8>) -> Option<i64> {
    let ds = if s.len() > 0 && (s[0] == 43 || s[0] == 45) {
        s.skip(1)
    } else {
        s
    };
    let neg = s.len() > 0 && s[0] == 45;
    if ds.len() > 0 && all_digits(ds) {
        let v = if neg {
            -digits_val(ds)
        } else {
            digits_val(ds)
        };
        if i64::MIN <= v <= i64::MAX {
            Some(v as i64)
        } else {
            None
        }
    } else {
        None
    }
}

/// A digit string denotes a nonnegative integer.
proof fn lemma_digits_val_nonneg(s: Seq<u8>)
    requires
        all_digits(s),
    ensures
        digits_val(s) >= 0,
    decreases s.len(),
{
    if s.len() > 0 {
        assert forall|j: int| 0 <= j < s.drop_last().len() implies is_digit(
            #[trigger] s.drop_last()[j],
        ) by {
            assert(is_digit(s[j]));
        }
        lemma_digits_val_nonneg(s.drop_last());
        assert(is_digit(s[s.len() - 1]));
    }
}

/// Extending a digit string never shrinks its value.
proof fn lemma_digits_val_take_le(s: Seq<u8>, k: int)
    requires
        all_digits(s),
        0 <= k <= s.len(),
    ensures
        digits_val(s.take(k)) <= digits_val(s),
    decreases s.len() - k,
{
    if k < s.len() {
        lemma_digits_val_take_le(s, k + 1);
        let a = s.take(k);
        let b = s.take(k + 1);
        assert(b.drop_last() =~= a);
        assert(b.last() == s[k]);
        assert forall|j: int| 0 <= j < a.len() implies is_digit(#[trigger] a[j]) by {
            assert(is_digit(s[j]));
        }
        lemma_digits_val_nonneg(a);
        assert(is_digit(s[k]));
    } else {
        assert(s.take(k) =~= s);
    }
}

/// Parses an optionally signed decimal integer, proved against
/// `parse_i64_spec`: an ASCII sign, then one or more ASCII digits, with
/// `None` on any other byte and on overflow. The magnitude accumulates
/// negatively so that the most negative integer parses too.
pub fn parse_i64_bytes(s: &[u8]) -> (r: Option<i64>)
    ensures
        r == parse_i64_spec(s@),
{
    let n = s.len();
    let (neg, start): (bool, usize) = if n > 0 && (s[0] == 43 || s[0] == 45) {
        (s[0] == 45, 1)
    } else {
        (false, 0)
    };
    let ghost ds = s@.skip(start as int);
    proof {
        assert(ds =~= s@.subrange(start as int, n as int));
    }
    if start >= n {
        return None;
    }
    let mut acc: i64 = 0;
    let mut i: usize = start;
    while i < n
        invariant
            start <= i <= n,
            start < n,
            n == s@.len(),
            neg == (s@.len() > 0 && s@[0] == 45),
            start as int == (if s@.len() > 0 && (s@[0] == 43 || s@[0] == 45) {
                1int
            } else {
                0int
            }),
            ds == s@.subrange(start as int, n as int),
            forall|j: int| start <= j < i ==> is_digit(#[trigger] s@[j]),
            i64::MIN <= acc <= 0,
            acc == -digits_val(s@.subrange(start as int, i as int)),
        decreases n - i,
    {
        let c = s[i];
        proof {
            let pre = s@.subrange(start as int, i as int);
            let post = s@.subrange(start as int, i + 1);
            assert(post.drop_last() =~= pre);
            assert(post.last() == s@[i as int]);
            assert(ds =~= s@.skip(start as int));
        }
        if c < 48 || c > 57 {
            proof {
                assert(ds[i - start as int] == s@[i as int]);
                assert(!is_digit(ds[i - start as int]));
            }
            return None;
        }
        let step = match acc.checked_mul(10) {
            Some(x) => x,
            None => {
                proof {
                    assert(10 * digits_val(s@.subrange(start as int, i as int)) + (c - 48)
                        > 0x8000_0000_0000_0000int);
                    lemma_overflow_means_out_of_range(s@, ds, start as int, i + 1);
                    if s@.len() > 0 && (s@[0] == 43 || s@[0] == 45) {
                        assert(ds == s@.skip(1));
                    } else {
                        assert(ds =~= s@);
                    }
                    assert(parse_i64_spec(s@) is None);
                }
                return None;
            },
        };
        acc = match step.checked_sub((c - 48) as i64) {
            Some(x) => x,
            None => {
                proof {
                    assert(10 * digits_val(s@.subrange(start as int, i as int)) + (c - 48)
                        > 0x8000_0000_0000_0000int);
                    lemma_overflow_means_out_of_range(s@, ds, start as int, i + 1);
                    if s@.len() > 0 && (s@[0] == 43 || s@[0] == 45) {
                        assert(ds == s@.skip(1));
                    } else {
                        assert(ds =~= s@);
                    }
                    assert(parse_i64_spec(s@) is None);
                }
                return None;
            },
        };
        i = i + 1;
    }
    proof {
        assert(s@.subrange(start as int, n as int) =~= ds);
        assert forall|j: int| 0 <= j < ds.len() implies is_digit(#[trigger] ds[j]) by {
            assert(is_digit(s@[start + j]));
        }
        lemma_digits_val_nonneg(ds);
        assert(ds =~= s@.skip(start as int));
        if s@.len() > 0 && (s@[0] == 43 || s@[0] == 45) {
            assert(ds == s@.skip(1));
        } else {
            assert(ds =~= s@);
        }
    }
    if neg {
        Some(acc)
    } else {
        if acc == i64::MIN {
            return None;
        }
        Some(-acc)
    }
}

/// When a digit prefix already exceeds the magnitude bound, the whole
/// digit string (if it is one) is out of the `i64` range, so the parse
/// yields nothing either way.
proof fn lemma_overflow_means_out_of_range(s: Seq<u8>, ds: Seq<u8>, start: int, upto: int)
    requires
        0 <= start <= upto <= s.len(),
        ds == s.subrange(start, s.len() as int),
        digits_val(s.subrange(start, upto)) > 0x8000_0000_0000_0000int,
    ensures
        all_digits(ds) ==> digits_val(ds) > 0x8000_0000_0000_0000int,
{
    if all_digits(ds) {
        lemma_digits_val_take_le(ds, upto - start);
        assert(ds.take(upto - start) =~= s.subrange(start, upto));
    }
}

/// The decimal digits of a nonnegative integer, most significant first.
pub open spec fn u_dec(n: int) -> Seq<u8>
    recommends
        n >= 0,
    decreases n,
{
    if n < 10 {
        seq![(48 + if n >= 0 { n } else { 0 }) as u8]
    } else {
        u_dec(n / 10).push((48 + n % 10) as u8)
    }
}

/// The decimal text of a signed integer: a minus sign and the digits of
/// the magnitude, or the digits alone.
pub open spec fn i64_dec(i: int) -> Seq<u8> {
    if i < 0 {
        seq![45u8] + u_dec(-i)
    } else {
        u_dec(i)
    }
}

/// The decimal digits of `n`, most significant first, proved against
/// `u_dec`.
fn fmt_u64(n: u64) -> (r: Vec<u8>)
    ensures
        r@ == u_dec(n as int),
    decreases n,
{
    if n < 10 {
        let mut v: Vec<u8> = Vec::new();
        v.push((48 + n) as u8);
        proof {
            assert(v@ =~= u_dec(n as int));
        }
        v
    } else {
        let mut v = fmt_u64(n / 10);
        v.push((48 + n % 10) as u8);
        proof {
            assert(v@ =~= u_dec((n / 10) as int).push((48 + (n as int) % 10) as u8));
        }
        v
    }
}

/// The decimal text of a signed integer, proved against `i64_dec`: the
/// digits of the magnitude, behind a minus sign for a negative number.
pub fn fmt_i64_bytes(i: i64) -> (r: Vec<u8>)
    ensures
        r@ == i64_dec(i as int),
{
    if i >= 0 {
        fmt_u64(i as u64)
    } else {
        let m: u64 = if i == i64::MIN {
            9_223_372_036_854_775_808u64
        } else {
            (-i) as u64
        };
        proof {
            assert(m as int == -(i as int));
        }
        let mut v: Vec<u8> = Vec::new();
        v.push(45u8);
        let mut tail = fmt_u64(m);
        v.append(&mut tail);
        proof {
            assert(v@ =~= seq![45u8] + u_dec(-(i as int)));
        }
        v
    }
}

/// The decimal text a number renders to: integers without a decimal
/// point, floats as the soft-float rendering.
pub open spec fn num_text(n: crate::types::Val) -> Seq<u8> {
    match n {
        crate::types::Val::Int(i) => i64_dec(i as int),
        crate::types::Val::Float(b) => fmt_f64_bits(b),
        _ => Seq::empty(),
    }
}

/// Lexicographic strict order on byte strings: byte-wise, with a proper
/// prefix ordered before its extensions.
pub open spec fn bytes_lt(a: Seq<u8>, b: Seq<u8>) -> bool
    decreases a.len(),
{
    if b.len() == 0 {
        false
    } else if a.len() == 0 {
        true
    } else if a[0] < b[0] {
        true
    } else if a[0] > b[0] {
        false
    } else {
        bytes_lt(a.skip(1), b.skip(1))
    }
}

/// Exec lexicographic comparison, proved against `bytes_lt`.
pub fn bytes_lt_exec(a: &Vec<u8>, b: &Vec<u8>) -> (r: bool)
    ensures
        r == bytes_lt(a@, b@),
{
    let mut i: usize = 0;
    proof {
        assert(a@.skip(0) =~= a@);
        assert(b@.skip(0) =~= b@);
    }
    loop
        invariant
            i <= a@.len(),
            i <= b@.len(),
            bytes_lt(a@, b@) == bytes_lt(a@.skip(i as int), b@.skip(i as int)),
        decreases a@.len() - i,
    {
        proof {
            if i < a@.len() && i < b@.len() {
                assert(a@.skip(i as int)[0] == a@[i as int]);
                assert(b@.skip(i as int)[0] == b@[i as int]);
                assert(a@.skip(i as int).skip(1) =~= a@.skip(i + 1));
                assert(b@.skip(i as int).skip(1) =~= b@.skip(i + 1));
            }
        }
        if i >= b.len() {
            return false;
        }
        if i >= a.len() {
            return true;
        }
        let x = a[i];
        let y = b[i];
        if x < y {
            return true;
        }
        if x > y {
            return false;
        }
        i = i + 1;
    }
}

/// Exec lexicographic "less than or equal": strictly before, or equal.
pub fn bytes_le_exec(a: &Vec<u8>, b: &Vec<u8>) -> (r: bool)
    ensures
        r == (bytes_lt(a@, b@) || a@ == b@),
{
    if crate::types::bytes_eq(a, b) {
        true
    } else {
        bytes_lt_exec(a, b)
    }
}

} // verus!
