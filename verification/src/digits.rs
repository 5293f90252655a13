//! Decimal rendering and parsing of unsigned numbers, byte by byte.
//!
//! The message wire format writes payloads as plain ASCII decimal digits;
//! this module proves that rendering and parsing are mutual inverses.

use vstd::prelude::*;

verus! {

/// Is `b` the ASCII code of a decimal digit?
pub open spec fn is_dec_digit(b: u8) -> bool {
    48 <= b <= 57
}

/// Every byte of `s` is an ASCII decimal digit.
pub open spec fn all_dec_digits(s: Seq<u8>) -> bool {
    forall|i: int| 0 <= i < s.len() ==> is_dec_digit(#[trigger] s[i])
}

/// The canonical decimal rendering of `n` (no leading zeros, at least one
/// digit).
pub open spec fn dec_digits(n: nat) -> Seq<u8>
    decreases n,
{
    if n < 10 {
        seq![(48 + n) as u8]
    } else {
        dec_digits(n / 10).push((48 + n % 10) as u8)
    }
}

/// The number denoted by a sequence of ASCII digit bytes (most significant
/// first); an empty sequence denotes zero.
pub open spec fn dec_val(s: Seq<u8>) -> int
    decreases s.len(),
{
    if s.len() == 0 {
        0
    } else {
        dec_val(s.drop_last()) * 10 + (s.last() - 48)
    }
}

/// A sequence of digit bytes denotes a non-negative number.
proof fn lemma_dec_val_nonneg(s: Seq<u8>)
    requires
        all_dec_digits(s),
    ensures
        dec_val(s) >= 0,
    decreases s.len(),
{
    if s.len() > 0 {
        assert(all_dec_digits(s.drop_last()));
        lemma_dec_val_nonneg(s.drop_last());
        assert(is_dec_digit(s.last()));
    }
}

/// The canonical rendering consists of digit bytes only and is never empty.
pub proof fn lemma_dec_digits_shape(n: nat)
    ensures
        dec_digits(n).len() >= 1,
        all_dec_digits(dec_digits(n)),
    decreases n,
{
    if n >= 10 {
        lemma_dec_digits_shape(n / 10);
        assert forall|i: int| 0 <= i < dec_digits(n).len() implies is_dec_digit(
            #[trigger] dec_digits(n)[i],
        ) by {
            if i < dec_digits(n / 10).len() {
                assert(dec_digits(n)[i] == dec_digits(n / 10)[i]);
            }
        }
    }
}

/// Parsing inverts rendering: the value of the canonical digits of `n` is `n`.
pub proof fn lemma_dec_val_of_digits(n: nat)
    ensures
        dec_val(dec_digits(n)) == n,
    decreases n,
{
    if n < 10 {
        let s = dec_digits(n);
        assert(s.drop_last() =~= Seq::<u8>::empty());
        assert(dec_val(Seq::<u8>::empty()) == 0);
        assert(s.last() == (48 + n) as u8);
        assert(dec_val(s) == 0 * 10 + ((48 + n) as u8 - 48));
        assert(((48 + n) as u8) as int == 48 + n);
    } else {
        lemma_dec_val_of_digits(n / 10);
        let s = dec_digits(n);
        assert(s.drop_last() =~= dec_digits(n / 10));
        assert(s.last() == (48 + n % 10) as u8);
        vstd::arithmetic::div_mod::lemma_fundamental_div_mod(n as int, 10);
        assert(0 <= n % 10 < 10);
        assert(((48 + n % 10) as u8) as int == 48 + (n % 10));
        assert(dec_val(s) == dec_val(dec_digits(n / 10)) * 10 + ((48 + n % 10) as u8 - 48));
        assert(dec_val(s) == (n / 10) * 10 + n % 10);
    }
}

/// Dropping trailing digits never increases the denoted value.
proof fn lemma_dec_val_prefix_le(s: Seq<u8>, i: int)
    requires
        0 <= i <= s.len(),
        all_dec_digits(s),
    ensures
        dec_val(s.subrange(0, i)) <= dec_val(s),
    decreases s.len() - i,
{
    if i == s.len() {
        assert(s.subrange(0, i) =~= s);
    } else {
        lemma_dec_val_prefix_le(s, i + 1);
        let t = s.subrange(0, i + 1);
        assert(t.drop_last() =~= s.subrange(0, i));
        assert(is_dec_digit(s[i]));
        assert(dec_val(t) == dec_val(s.subrange(0, i)) * 10 + (t.last() - 48));
        assert(all_dec_digits(s.subrange(0, i)));
        lemma_dec_val_nonneg(s.subrange(0, i));
    }
}

/// Render `n` in decimal.
pub fn u64_to_dec(n: u64) -> (r: Vec<u8>)
    ensures
        r@ == dec_digits(n as nat),
    decreases n,
{
    if n < 10 {
        let mut v: Vec<u8> = Vec::new();
        v.push(48 + n as u8);
        assert(v@ =~= dec_digits(n as nat));
        v
    } else {
        let mut v = u64_to_dec(n / 10);
        v.push(48 + (n % 10) as u8);
        assert(v@ =~= dec_digits(n as nat));
        v
    }
}

/// Parse the bytes `data[start..end]` as an unsigned decimal number.
///
/// Returns the denoted value exactly when the range is non-empty, holds
/// digits only, and the value fits in a `u64`.
pub fn parse_u64(data: &Vec<u8>, start: usize, end: usize) -> (r: Option<u64>)
    requires
        start <= end <= data@.len(),
    ensures
        ({
            let s = data@.subrange(start as int, end as int);
            match r {
                Some(v) => start < end && all_dec_digits(s) && dec_val(s) == v,
                None => start == end || !all_dec_digits(s) || dec_val(s) > u64::MAX,
            }
        }),
{
    let ghost s = data@.subrange(start as int, end as int);
    if start == end {
        return None;
    }
    let mut acc: u64 = 0;
    let mut i = start;
    while i < end
        invariant
            start <= i <= end <= data@.len(),
            s == data@.subrange(start as int, end as int),
            all_dec_digits(s.subrange(0, i - start)),
            acc == dec_val(s.subrange(0, i - start)),
        decreases end - i,
    {
        let b = data[i];
        proof {
            assert(s[i - start] == data@[i as int]);
        }
        if b < 48 || b > 57 {
            proof {
                assert(!is_dec_digit(s[i - start]));
            }
            return None;
        }
        let d = (b - 48) as u64;
        if acc > (u64::MAX - d) / 10 {
            proof {
                let t = s.subrange(0, i - start + 1);
                assert(t.drop_last() =~= s.subrange(0, i - start));
                assert(t.last() == s[i - start]);
                assert(dec_val(t) == acc * 10 + d);
                assert(acc * 10 + d > u64::MAX) by (nonlinear_arith)
                    requires
                        acc > (u64::MAX - d) / 10,
                        0 <= d <= 9,
                        acc <= u64::MAX,
                {}
                if all_dec_digits(s) {
                    lemma_dec_val_prefix_le(s, i - start + 1);
                }
            }
            return None;
        }
        proof {
            let t = s.subrange(0, i - start + 1);
            assert(t.drop_last() =~= s.subrange(0, i - start));
            assert(t.last() == s[i - start]);
            assert(acc * 10 + d <= u64::MAX) by (nonlinear_arith)
                requires
                    acc <= (u64::MAX - d) / 10,
                    0 <= d <= 9,
            {}
            assert(all_dec_digits(t)) by {
                assert(forall|j: int| 0 <= j < t.len() - 1 ==> t[j] == #[trigger] s.subrange(
                    0,
                    i - start,
                )[j]);
            }
        }
        acc = acc * 10 + d;
        i = i + 1;
    }
    proof {
        assert(s.subrange(0, i - start) =~= s);
    }
    Some(acc)
}

} // verus!
