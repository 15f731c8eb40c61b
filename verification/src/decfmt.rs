//! Decimal rendering of integers, at the character level for display strings
//! and at the byte level for the canonical JSON documents.

use vstd::prelude::*;
use vstd::string::*;
use crate::hexfmt::hex_digit_char;

verus! {

/// Decimal digits of `n`, most significant first, as characters.
pub open spec fn dec_chars(n: nat) -> Seq<char>
    decreases n,
{
    if n < 10 {
        seq![hex_digit_char(n as u8)]
    } else {
        dec_chars(n / 10).push(hex_digit_char((n % 10) as u8))
    }
}

/// Decimal digits of `n`, most significant first, as ASCII bytes.
pub open spec fn dec_bytes(n: nat) -> Seq<u8>
    decreases n,
{
    if n < 10 {
        seq![(48 + n) as u8]
    } else {
        dec_bytes(n / 10).push((48 + n % 10) as u8)
    }
}

/// Decimal rendering of a signed value: a minus sign before the magnitude.
pub open spec fn dec_bytes_i64(v: int) -> Seq<u8> {
    if v >= 0 {
        dec_bytes(v as nat)
    } else {
        seq![45u8] + dec_bytes((-v) as nat)
    }
}

pub open spec fn is_digit_byte(b: u8) -> bool {
    48 <= b && b <= 57
}

pub open spec fn all_digit_bytes(s: Seq<u8>) -> bool {
    forall|i: int| 0 <= i < s.len() ==> is_digit_byte(#[trigger] s[i])
}

/// The value of a string of decimal digit bytes.
pub open spec fn dec_bytes_val(s: Seq<u8>) -> nat
    decreases s.len(),
{
    if s.len() == 0 {
        0
    } else {
        dec_bytes_val(s.drop_last()) * 10 + (s.last() - 48) as nat
    }
}

/// A canonical decimal rendering: non-empty, digits only, no leading zero.
pub open spec fn is_canon_dec_bytes(s: Seq<u8>) -> bool {
    s.len() >= 1 && all_digit_bytes(s) && (s.len() == 1 || s[0] != 48)
}

/// `dec_bytes` produces a canonical rendering whose value is `n`.
pub proof fn lemma_dec_bytes_canon(n: nat)
    ensures
        is_canon_dec_bytes(dec_bytes(n)),
        dec_bytes_val(dec_bytes(n)) == n,
        n > 0 ==> dec_bytes(n)[0] != 48,
    decreases n,
{
    if n < 10 {
        let s = dec_bytes(n);
        assert(s =~= seq![(48 + n) as u8]);
        assert(s.drop_last() =~= Seq::<u8>::empty());
        assert(dec_bytes_val(s.drop_last()) == 0);
        assert(dec_bytes_val(s) == (s.last() - 48) as nat);
    } else {
        lemma_dec_bytes_canon(n / 10);
        let s = dec_bytes(n);
        let p = dec_bytes(n / 10);
        assert(s =~= p.push((48 + n % 10) as u8));
        assert(s.drop_last() =~= p);
        assert(s.last() == (48 + n % 10) as u8);
        assert((s.last() - 48) as nat == n % 10);
        assert(dec_bytes_val(s) == dec_bytes_val(s.drop_last()) * 10 + (s.last() - 48) as nat);
        assert(dec_bytes_val(s.drop_last()) == dec_bytes_val(p));
        assert(dec_bytes_val(p) == n / 10);
        assert(dec_bytes_val(s) == (n / 10) * 10 + n % 10);
        assert(n == (n / 10) * 10 + n % 10) by {
            vstd::arithmetic::div_mod::lemma_fundamental_div_mod(n as int, 10);
        }
        assert(forall|i: int|
            0 <= i < s.len() ==> is_digit_byte(#[trigger] s[i]) == if i < p.len() {
                is_digit_byte(p[i])
            } else {
                is_digit_byte(s.last())
            });
    }
}

/// A digit string's prefixes never read a larger value than the whole.
pub proof fn lemma_dec_val_prefix_le(s: Seq<u8>, i: int)
    requires
        0 <= i <= s.len(),
    ensures
        dec_bytes_val(s.subrange(0, i)) <= dec_bytes_val(s),
    decreases s.len() - i,
{
    if i == s.len() {
        assert(s.subrange(0, i) =~= s);
    } else {
        lemma_dec_val_prefix_le(s, i + 1);
        let p = s.subrange(0, i);
        let q = s.subrange(0, i + 1);
        assert(q.drop_last() =~= p);
        assert(dec_bytes_val(q) == dec_bytes_val(p) * 10 + (q.last() - 48) as nat);
    }
}

/// Render an unsigned value in decimal.
pub fn u64_to_dec(n: u64) -> (r: String)
    ensures
        r@ == dec_chars(n as nat),
    decreases n,
{
    if n < 10 {
        crate::hexfmt::hex_digit_str(n as u8).to_owned()
    } else {
        let mut s = u64_to_dec(n / 10);
        s.append(crate::hexfmt::hex_digit_str((n % 10) as u8));
        proof {
            assert(s@ =~= dec_chars(n as nat));
        }
        s
    }
}

/// Render an unsigned 128-bit value in decimal.
pub fn u128_to_dec(n: u128) -> (r: String)
    ensures
        r@ == dec_chars(n as nat),
    decreases n,
{
    if n < 10 {
        crate::hexfmt::hex_digit_str(n as u8).to_owned()
    } else {
        let mut s = u128_to_dec(n / 10);
        s.append(crate::hexfmt::hex_digit_str((n % 10) as u8));
        proof {
            assert(s@ =~= dec_chars(n as nat));
        }
        s
    }
}

/// Append the decimal digits of `n` to a byte string.
pub fn push_dec_u64(out: &mut Vec<u8>, n: u64)
    ensures
        final(out)@ =~= old(out)@ + dec_bytes(n as nat),
    decreases n,
{
    if n < 10 {
        out.push((48 + n) as u8);
    } else {
        push_dec_u64(out, n / 10);
        out.push((48 + (n % 10)) as u8);
    }
}

/// Append the decimal rendering of a signed value to a byte string.
pub fn push_dec_i64(out: &mut Vec<u8>, v: i64)
    ensures
        final(out)@ =~= old(out)@ + dec_bytes_i64(v as int),
{
    if v >= 0 {
        push_dec_u64(out, v as u64);
    } else {
        out.push(45u8);
        let mag: u64 = if v == i64::MIN {
            9223372036854775808u64
        } else {
            (-v) as u64
        };
        assert(mag == -(v as int));
        push_dec_u64(out, mag);
    }
}

} // verus!
