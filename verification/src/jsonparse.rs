//! Parsing of the canonical JSON documents. A parsed value is accepted
//! only when its canonical re-encoding is byte-identical to the input, so
//! every successful parse certifies itself: the contract of each entry
//! point says exactly that, and nothing rests on the scanning code.

use vstd::prelude::*;
use vstd::string::*;
use vstd::utf8::{valid_utf8, decode_utf8};
use crate::jsonenc::{tx_enc, block_enc, chain_enc, tx_to_json, block_to_json, chain_to_json};
use crate::model::{Transaction, Block, Blockchain, TransactionModel};

verus! {

/// Relies on `String::from_utf8`: it succeeds exactly on valid UTF-8 and
/// decodes it.
#[verifier::external_body]
pub(crate) fn string_from_utf8(v: Vec<u8>) -> (r: Option<String>)
    ensures
        r is Some <==> valid_utf8(v@),
        r is Some ==> r->Some_0@ == decode_utf8(v@),
{
    String::from_utf8(v).ok()
}

/// A fresh copy of a byte string.
pub(crate) fn copy_bytes(v: &Vec<u8>) -> (r: Vec<u8>)
    ensures
        r@ == v@,
{
    let mut out: Vec<u8> = Vec::new();
    let mut i: usize = 0;
    while i < v.len()
        invariant
            i <= v@.len(),
            out@ =~= v@.subrange(0, i as int),
        decreases v@.len() - i,
    {
        out.push(v[i]);
        i = i + 1;
        proof {
            assert(out@ =~= v@.subrange(0, i as int));
        }
    }
    proof {
        assert(v@.subrange(0, v@.len() as int) =~= v@);
    }
    out
}

/// Whether two byte strings are equal.
pub fn bytes_eq(a: &Vec<u8>, b: &Vec<u8>) -> (r: bool)
    ensures
        r == (a@ == b@),
{
    if a.len() != b.len() {
        return false;
    }
    let mut i: usize = 0;
    while i < a.len()
        invariant
            a@.len() == b@.len(),
            i <= a@.len(),
            forall|j: int| 0 <= j < i ==> a@[j] == b@[j],
        decreases a@.len() - i,
    {
        if a[i] != b[i] {
            return false;
        }
        i = i + 1;
    }
    proof {
        assert(a@ =~= b@);
    }
    true
}

/// Consume an expected literal piece. Where the literal stands at `pos`,
/// success is owed.
pub(crate) fn expect_lit(buf: &Vec<u8>, pos: usize, lit: &str) -> (r: Option<usize>)
    ensures
        r is Some ==> pos <= r->Some_0 <= buf@.len(),
        pos + crate::jsonenc::lit_bytes(lit@).len() <= buf@.len() && buf@.subrange(
            pos as int,
            pos + crate::jsonenc::lit_bytes(lit@).len(),
        ) == crate::jsonenc::lit_bytes(lit@) ==> r is Some && r->Some_0 == pos
            + crate::jsonenc::lit_bytes(lit@).len(),
{
    let lb = lit.as_bytes_vec();
    let ghost lbs = crate::jsonenc::lit_bytes(lit@);
    proof {
        assert(lb@ == lbs);
    }
    if pos > buf.len() || buf.len() - pos < lb.len() {
        return None;
    }
    let blen = buf.len();
    let mut i: usize = 0;
    while i < lb.len()
        invariant
            blen == buf@.len(),
            lbs == lb@,
            lbs == crate::jsonenc::lit_bytes(lit@),
            pos + lb@.len() <= buf@.len(),
            i <= lb@.len(),
        decreases lb@.len() - i,
    {
        if buf[pos + i] != lb[i] {
            proof {
                if pos + lbs.len() <= buf@.len() && buf@.subrange(pos as int, pos + lbs.len())
                    == lbs {
                    assert(buf@.subrange(pos as int, pos + lbs.len())[i as int] == lbs[i as int]);
                    assert(buf@.subrange(pos as int, pos + lbs.len())[i as int] == buf@[pos + i]);
                }
            }
            return None;
        }
        i = i + 1;
    }
    Some(pos + lb.len())
}

/// A quoted string of escape-free content stands at `pos`: the canonical
/// encoding of `cs`, whose UTF-8 bytes need no escaping.
pub open spec fn plain_str_at(b: Seq<u8>, pos: int, cs: Seq<char>) -> bool {
    let e = vstd::utf8::encode_utf8(cs);
    &&& crate::jsonenc::plain_bytes(e)
    &&& 0 <= pos
    &&& pos + e.len() + 2 <= b.len()
    &&& b[pos] == 34
    &&& b[pos + 1 + e.len()] == 34
    &&& forall|j: int| 0 <= j < e.len() ==> b[pos + 1 + j] == #[trigger] e[j]
}

/// Parse a quoted, escaped string token. Where a quoted string of
/// escape-free content stands at `pos`, success with exactly those
/// characters is owed.
#[verifier::rlimit(100)]
pub(crate) fn parse_string_at(buf: &Vec<u8>, pos: usize) -> (r: Option<(String, usize)>)
    ensures
        r is Some ==> pos < r->Some_0.1 <= buf@.len(),
        forall|cs: Seq<char>|
            plain_str_at(buf@, pos as int, cs) ==> r is Some && r->Some_0.0@ == cs
                && r->Some_0.1 == pos + 2 + vstd::utf8::encode_utf8(cs).len(),
{
    if pos >= buf.len() || buf[pos] != 34 {
        return None;
    }
    let mut content: Vec<u8> = Vec::new();
    let mut i: usize = pos + 1;
    proof {
        assert forall|cs: Seq<char>|
            plain_str_at(buf@, pos as int, cs) implies content@ == vstd::utf8::encode_utf8(
            cs,
        ).subrange(0, i - pos - 1) by {
            assert(vstd::utf8::encode_utf8(cs).subrange(0, 0) =~= Seq::<u8>::empty());
        }
    }
    while i < buf.len()
        invariant
            pos < i,
            i <= buf@.len(),
            forall|cs: Seq<char>|
                plain_str_at(buf@, pos as int, cs) ==> i <= pos + 1 + vstd::utf8::encode_utf8(
                    cs,
                ).len() && content@ == vstd::utf8::encode_utf8(cs).subrange(0, i - pos - 1),
        decreases buf@.len() - i,
    {
        let b = buf[i];
        proof {
            assert forall|cs: Seq<char>|
                plain_str_at(buf@, pos as int, cs) implies (i < pos + 1
                + vstd::utf8::encode_utf8(cs).len() && buf@[i as int]
                == vstd::utf8::encode_utf8(cs)[i - pos - 1] && 32 <= buf@[i as int] && buf@[
            i as int] != 34 && buf@[i as int] != 92) || (i == pos + 1 + vstd::utf8::encode_utf8(
                cs,
            ).len() && buf@[i as int] == 34) by {
                let e = vstd::utf8::encode_utf8(cs);
                if i < pos + 1 + e.len() {
                    assert(buf@[pos + 1 + (i - pos - 1)] == e[i - pos - 1]);
                }
            }
        }
        if b == 34 {
            let ghost cont = content@;
            proof {
                assert forall|cs: Seq<char>|
                    plain_str_at(buf@, pos as int, cs) implies cont == vstd::utf8::encode_utf8(
                    cs,
                ) && i == pos + 1 + vstd::utf8::encode_utf8(cs).len() by {
                    let e = vstd::utf8::encode_utf8(cs);
                    assert(e.subrange(0, e.len() as int) =~= e);
                }
            }
            match string_from_utf8(content) {
                Some(s) => {
                    proof {
                        assert forall|cs: Seq<char>|
                            plain_str_at(buf@, pos as int, cs) implies s@ == cs by {
                            vstd::utf8::encode_utf8_decode_utf8(cs);
                        }
                    }
                    return Some((s, i + 1));
                },
                None => {
                    proof {
                        assert forall|cs: Seq<char>|
                            !plain_str_at(buf@, pos as int, cs) by {
                            if plain_str_at(buf@, pos as int, cs) {
                                vstd::utf8::encode_utf8_valid_utf8(cs);
                            }
                        }
                    }
                    return None;
                },
            }
        } else if b == 92 {
            proof {
                assert forall|cs: Seq<char>| !plain_str_at(buf@, pos as int, cs) by {}
            }
            if i + 1 >= buf.len() {
                return None;
            }
            let e = buf[i + 1];
            if e == 34 {
                content.push(34);
                i = i + 2;
            } else if e == 92 {
                content.push(92);
                i = i + 2;
            } else if e == 98 {
                content.push(8);
                i = i + 2;
            } else if e == 116 {
                content.push(9);
                i = i + 2;
            } else if e == 110 {
                content.push(10);
                i = i + 2;
            } else if e == 102 {
                content.push(12);
                i = i + 2;
            } else if e == 114 {
                content.push(13);
                i = i + 2;
            } else if e == 117 {
                if buf.len() - i <= 5 {
                    return None;
                }
                if buf[i + 2] != 48 || buf[i + 3] != 48 {
                    return None;
                }
                let h = hex_nibble(buf[i + 4]);
                let l = hex_nibble(buf[i + 5]);
                match (h, l) {
                    (Some(hv), Some(lv)) => {
                        content.push(16 * hv + lv);
                        i = i + 6;
                    },
                    _ => {
                        return None;
                    },
                }
            } else {
                return None;
            }
        } else if b < 32 {
            proof {
                assert forall|cs: Seq<char>| !plain_str_at(buf@, pos as int, cs) by {}
            }
            return None;
        } else {
            content.push(b);
            i = i + 1;
            proof {
                assert forall|cs: Seq<char>|
                    plain_str_at(buf@, pos as int, cs) implies i <= pos + 1
                    + vstd::utf8::encode_utf8(cs).len() && content@ == vstd::utf8::encode_utf8(
                    cs,
                ).subrange(0, i - pos - 1) by {
                    let e = vstd::utf8::encode_utf8(cs);
                    assert(e.subrange(0, i - pos - 1) =~= e.subrange(0, i - pos - 2).push(
                        e[i - pos - 2],
                    ));
                }
            }
        }
    }
    proof {
        assert forall|cs: Seq<char>| !plain_str_at(buf@, pos as int, cs) by {}
    }
    None
}

/// The value of a lowercase hex digit byte./// The value of a lowercase hex digit byte.
fn hex_nibble(b: u8) -> (r: Option<u8>)
    ensures
        r is Some ==> r->Some_0 < 16,
{
    if 48 <= b && b <= 57 {
        Some(b - 48)
    } else if 97 <= b && b <= 102 {
        Some(b - 87)
    } else {
        None
    }
}

/// Parse an unsigned decimal number: the maximal digit run from `pos`,
/// refused on 64-bit overflow. Where the canonical rendering of some `n`
/// stands at `pos`, followed by nothing or by a non-digit, success is
/// owed: the parse returns `n` having consumed exactly those digits.
pub(crate) fn parse_u64_at(buf: &Vec<u8>, pos: usize) -> (r: Option<(u64, usize)>)
    ensures
        r is Some ==> pos < r->Some_0.1 <= buf@.len(),
        forall|n: u64|
            #![trigger crate::decfmt::dec_bytes(n as nat)]
            (pos + crate::decfmt::dec_bytes(n as nat).len() <= buf@.len() && buf@.subrange(
                pos as int,
                pos + crate::decfmt::dec_bytes(n as nat).len(),
            ) == crate::decfmt::dec_bytes(n as nat) && (pos + crate::decfmt::dec_bytes(
                n as nat,
            ).len() == buf@.len() || !crate::decfmt::is_digit_byte(
                buf@[pos + crate::decfmt::dec_bytes(n as nat).len()],
            ))) ==> r == Some((n, (pos + crate::decfmt::dec_bytes(n as nat).len()) as usize)),
{
    let blen = buf.len();
    if pos >= blen {
        proof {
            assert forall|n: u64|
                !(pos + crate::decfmt::dec_bytes(n as nat).len() <= buf@.len() && buf@.subrange(
                    pos as int,
                    pos + crate::decfmt::dec_bytes(n as nat).len(),
                ) == crate::decfmt::dec_bytes(n as nat)) by {
                crate::decfmt::lemma_dec_bytes_canon(n as nat);
            }
        }
        return None;
    }
    let b0 = buf[pos];
    if !(48 <= b0 && b0 <= 57) {
        proof {
            assert forall|n: u64|
                !(pos + crate::decfmt::dec_bytes(n as nat).len() <= buf@.len() && buf@.subrange(
                    pos as int,
                    pos + crate::decfmt::dec_bytes(n as nat).len(),
                ) == crate::decfmt::dec_bytes(n as nat)) by {
                crate::decfmt::lemma_dec_bytes_canon(n as nat);
                let d = crate::decfmt::dec_bytes(n as nat);
                if pos + d.len() <= buf@.len() && buf@.subrange(pos as int, pos + d.len()) == d {
                    assert(buf@.subrange(pos as int, pos + d.len())[0] == d[0]);
                    assert(crate::decfmt::is_digit_byte(d[0]));
                }
            }
        }
        return None;
    }
    let mut acc: u64 = (b0 - 48) as u64;
    let mut i: usize = pos + 1;
    proof {
        assert(buf@.subrange(pos as int, pos + 1).drop_last() =~= Seq::<u8>::empty());
        assert(buf@.subrange(pos as int, pos + 1).last() == buf@[pos as int]);
        assert(crate::decfmt::dec_bytes_val(Seq::<u8>::empty()) == 0);
        assert(crate::decfmt::dec_bytes_val(buf@.subrange(pos as int, pos + 1)) == (b0
            - 48) as nat);
    }
    while i < blen
        invariant
            blen == buf@.len(),
            pos < i <= blen,
            forall|j: int| pos <= j < i ==> crate::decfmt::is_digit_byte(#[trigger] buf@[j]),
            acc == crate::decfmt::dec_bytes_val(buf@.subrange(pos as int, i as int)),
        decreases blen - i,
    {
        let b = buf[i];
        if 48 <= b && b <= 57 {
            proof {
                assert(buf@.subrange(pos as int, i + 1).drop_last() =~= buf@.subrange(
                    pos as int,
                    i as int,
                ));
                assert(buf@.subrange(pos as int, i + 1).last() == buf@[i as int]);
            }
            let d = (b - 48) as u64;
            let step = match acc.checked_mul(10) {
                Some(v) => v.checked_add(d),
                None => None,
            };
            match step {
                Some(v) => {
                    acc = v;
                },
                None => {
                    proof {
                        assert forall|n: u64|
                            !(pos + crate::decfmt::dec_bytes(n as nat).len() <= buf@.len()
                                && buf@.subrange(
                                pos as int,
                                pos + crate::decfmt::dec_bytes(n as nat).len(),
                            ) == crate::decfmt::dec_bytes(n as nat) && (pos
                                + crate::decfmt::dec_bytes(n as nat).len() == buf@.len()
                                || !crate::decfmt::is_digit_byte(
                                buf@[pos + crate::decfmt::dec_bytes(n as nat).len()],
                            ))) by {
                            crate::decfmt::lemma_dec_bytes_canon(n as nat);
                            let dn = crate::decfmt::dec_bytes(n as nat);
                            if pos + dn.len() <= buf@.len() && buf@.subrange(
                                pos as int,
                                pos + dn.len(),
                            ) == dn && (pos + dn.len() == buf@.len()
                                || !crate::decfmt::is_digit_byte(buf@[pos + dn.len()])) {
                                assert(i + 1 <= pos + dn.len()) by {
                                    if pos + dn.len() < i + 1 {
                                        assert(crate::decfmt::is_digit_byte(
                                            buf@[pos + dn.len()],
                                        ));
                                    }
                                }
                                assert(buf@.subrange(pos as int, i + 1) =~= dn.subrange(
                                    0,
                                    i + 1 - pos,
                                ));
                                crate::decfmt::lemma_dec_val_prefix_le(dn, i + 1 - pos);
                                assert(crate::decfmt::dec_bytes_val(
                                    buf@.subrange(pos as int, i + 1),
                                ) <= n);
                                assert(crate::decfmt::dec_bytes_val(
                                    buf@.subrange(pos as int, i + 1),
                                ) == acc * 10 + (b - 48) as nat);
                            }
                        }
                    }
                    return None;
                },
            }
            i = i + 1;
        } else {
            proof {
                assert forall|n: u64|
                    (pos + crate::decfmt::dec_bytes(n as nat).len() <= buf@.len()
                        && buf@.subrange(
                        pos as int,
                        pos + crate::decfmt::dec_bytes(n as nat).len(),
                    ) == crate::decfmt::dec_bytes(n as nat) && (pos + crate::decfmt::dec_bytes(
                        n as nat,
                    ).len() == buf@.len() || !crate::decfmt::is_digit_byte(
                        buf@[pos + crate::decfmt::dec_bytes(n as nat).len()],
                    ))) implies acc == n && i == pos + crate::decfmt::dec_bytes(
                    n as nat,
                ).len() by {
                    crate::decfmt::lemma_dec_bytes_canon(n as nat);
                    let dn = crate::decfmt::dec_bytes(n as nat);
                    assert(i >= pos + dn.len()) by {
                        if i < pos + dn.len() {
                            assert(buf@.subrange(pos as int, pos + dn.len())[i - pos]
                                == dn[i - pos]);
                            assert(crate::decfmt::is_digit_byte(dn[i - pos]));
                        }
                    }
                    assert(i <= pos + dn.len()) by {
                        if i > pos + dn.len() {
                            assert(crate::decfmt::is_digit_byte(buf@[pos + dn.len()]));
                        }
                    }
                    assert(buf@.subrange(pos as int, i as int) =~= dn);
                }
            }
            return Some((acc, i));
        }
    }
    proof {
        assert forall|n: u64|
            (pos + crate::decfmt::dec_bytes(n as nat).len() <= buf@.len() && buf@.subrange(
                pos as int,
                pos + crate::decfmt::dec_bytes(n as nat).len(),
            ) == crate::decfmt::dec_bytes(n as nat) && (pos + crate::decfmt::dec_bytes(
                n as nat,
            ).len() == buf@.len() || !crate::decfmt::is_digit_byte(
                buf@[pos + crate::decfmt::dec_bytes(n as nat).len()],
            ))) implies acc == n && i == pos + crate::decfmt::dec_bytes(n as nat).len() by {
            crate::decfmt::lemma_dec_bytes_canon(n as nat);
            let dn = crate::decfmt::dec_bytes(n as nat);
            assert(pos + dn.len() >= i) by {
                if pos + dn.len() < i {
                    assert(crate::decfmt::is_digit_byte(buf@[pos + dn.len()]));
                    assert(pos + dn.len() != buf@.len());
                }
            }
            assert(buf@.subrange(pos as int, i as int) =~= dn);
        }
    }
    Some((acc, i))
}

/// Parse a signed decimal number: an optional minus sign before the
/// digit run. Where the canonical rendering of some `v` stands at `pos`,
/// followed by nothing or by a non-digit, success is owed.
pub(crate) fn parse_i64_at(buf: &Vec<u8>, pos: usize) -> (r: Option<(i64, usize)>)
    ensures
        r is Some ==> pos < r->Some_0.1 <= buf@.len(),
        forall|v: i64|
            #![trigger crate::decfmt::dec_bytes_i64(v as int)]
            i64_hyp_at(buf@, pos as int, v) ==> r == Some(
                (v, (pos + crate::decfmt::dec_bytes_i64(v as int).len()) as usize),
            ),
{
    if pos < buf.len() && buf[pos] == 45 {
        let r_mag = parse_u64_at(buf, pos + 1);
        proof {
            assert forall|v: i64| i64_hyp_at(buf@, pos as int, v) implies v < 0 && r_mag == Some(
                (
                    ((-(v as int)) as u64),
                    (pos + crate::decfmt::dec_bytes_i64(v as int).len()) as usize,
                ),
            ) by {
                let dv = crate::decfmt::dec_bytes_i64(v as int);
                if v >= 0 {
                    crate::decfmt::lemma_dec_bytes_canon(v as nat);
                    assert(buf@.subrange(pos as int, pos + dv.len())[0] == dv[0]);
                    assert(crate::decfmt::is_digit_byte(dv[0]));
                } else {
                    let n: u64 = (-(v as int)) as u64;
                    let dn = crate::decfmt::dec_bytes(n as nat);
                    assert(dv =~= seq![45u8] + dn);
                    assert forall|j: int| 0 <= j < dv.len() implies #[trigger] buf@[pos + j]
                        == dv[j] by {
                        assert(buf@.subrange(pos as int, pos + dv.len())[j] == dv[j]);
                    }
                    assert forall|k: int|
                        0 <= k < dn.len() implies buf@.subrange(
                        pos + 1,
                        pos + 1 + dn.len() as int,
                    )[k] == dn[k] by {
                        assert(buf@[pos + (k + 1)] == dv[k + 1]);
                        assert(dv[k + 1] == dn[k]);
                    }
                    assert(buf@.subrange(pos + 1, pos + 1 + dn.len() as int) =~= dn);
                    assert(pos + 1 + dn.len() == pos + dv.len());
                }
            }
        }
        match r_mag {
            Some((m, np)) => {
                if m <= 9223372036854775807u64 {
                    Some((-(m as i64), np))
                } else if m == 9223372036854775808u64 {
                    Some((i64::MIN, np))
                } else {
                    proof {
                        assert forall|v: i64| !i64_hyp_at(buf@, pos as int, v) by {
                            if i64_hyp_at(buf@, pos as int, v) {
                                assert(m == (-(v as int)) as u64);
                            }
                        }
                    }
                    None
                }
            },
            None => {
                proof {
                    assert forall|v: i64| !i64_hyp_at(buf@, pos as int, v) by {}
                }
                None
            },
        }
    } else {
        let r_mag = parse_u64_at(buf, pos);
        proof {
            assert forall|v: i64| i64_hyp_at(buf@, pos as int, v) implies v >= 0 && r_mag == Some(
                (
                    (v as u64),
                    (pos + crate::decfmt::dec_bytes_i64(v as int).len()) as usize,
                ),
            ) by {
                let dv = crate::decfmt::dec_bytes_i64(v as int);
                if v < 0 {
                    assert(buf@.subrange(pos as int, pos + dv.len())[0] == dv[0]);
                    assert(dv[0] == 45);
                }
            }
        }
        match r_mag {
            Some((m, np)) => {
                if m <= 9223372036854775807u64 {
                    Some((m as i64, np))
                } else {
                    proof {
                        assert forall|v: i64| !i64_hyp_at(buf@, pos as int, v) by {
                            if i64_hyp_at(buf@, pos as int, v) {
                                assert(m == v as u64);
                            }
                        }
                    }
                    None
                }
            },
            None => {
                proof {
                    assert forall|v: i64| !i64_hyp_at(buf@, pos as int, v) by {}
                }
                None
            },
        }
    }
}

/// The canonical signed rendering of `v` stands at `pos`, ending the
/// slice or followed by a non-digit.
pub open spec fn i64_hyp_at(b: Seq<u8>, pos: int, v: i64) -> bool {
    let dv = crate::decfmt::dec_bytes_i64(v as int);
    &&& 0 <= pos
    &&& pos + dv.len() <= b.len()
    &&& b.subrange(pos, pos + dv.len()) == dv
    &&& (pos + dv.len() == b.len() || !crate::decfmt::is_digit_byte(b[pos + dv.len()]))
}

/// A literal piece stands at `pos`.
pub open spec fn lit_at(b: Seq<u8>, pos: int, l: Seq<u8>) -> bool {
    &&& 0 <= pos
    &&& pos + l.len() <= b.len()
    &&& b.subrange(pos, pos + l.len()) == l
}

/// A transaction whose string fields need no escaping: every address, key
/// and signature the system itself produces is of this kind.
pub open spec fn tx_plain(t: TransactionModel) -> bool {
    &&& i64::MIN <= t.amount <= i64::MAX
    &&& crate::jsonenc::plain_bytes(vstd::utf8::encode_utf8(t.from))
    &&& crate::jsonenc::plain_bytes(vstd::utf8::encode_utf8(t.pub_key))
    &&& crate::jsonenc::plain_bytes(vstd::utf8::encode_utf8(t.to))
    &&& crate::jsonenc::plain_bytes(vstd::utf8::encode_utf8(t.signature))
}

/// Where each piece of a transaction object stands, when the object is
/// laid out at `pos`.
pub open spec fn tx_shape_at(b: Seq<u8>, pos: int, t: TransactionModel) -> bool {
    let l1 = crate::jsonenc::lit_bytes("{\"from\":"@);
    let e1 = vstd::utf8::encode_utf8(t.from);
    let l2 = crate::jsonenc::lit_bytes(",\"pub_key\":"@);
    let e2 = vstd::utf8::encode_utf8(t.pub_key);
    let l3 = crate::jsonenc::lit_bytes(",\"to\":"@);
    let e3 = vstd::utf8::encode_utf8(t.to);
    let l4 = crate::jsonenc::lit_bytes(",\"amount\":"@);
    let a = crate::decfmt::dec_bytes_i64(t.amount);
    let l5 = crate::jsonenc::lit_bytes(",\"signature\":"@);
    let e5 = vstd::utf8::encode_utf8(t.signature);
    let l6 = crate::jsonenc::lit_bytes("}"@);
    let o1 = pos + l1.len();
    let o2 = o1 + e1.len() + 2;
    let o3 = o2 + l2.len();
    let o4 = o3 + e2.len() + 2;
    let o5 = o4 + l3.len();
    let o6 = o5 + e3.len() + 2;
    let o7 = o6 + l4.len();
    let o8 = o7 + a.len();
    let o9 = o8 + l5.len();
    let o10 = o9 + e5.len() + 2;
    &&& lit_at(b, pos, l1)
    &&& plain_str_at(b, o1, t.from)
    &&& lit_at(b, o2, l2)
    &&& plain_str_at(b, o3, t.pub_key)
    &&& lit_at(b, o4, l3)
    &&& plain_str_at(b, o5, t.to)
    &&& lit_at(b, o6, l4)
    &&& i64_hyp_at(b, o7, t.amount as i64)
    &&& lit_at(b, o8, l5)
    &&& plain_str_at(b, o9, t.signature)
    &&& lit_at(b, o10, l6)
    &&& o10 + l6.len() == pos + crate::jsonenc::tx_enc(t).len()
}

/// The first byte of the literal before the signature field is a comma,
/// which is no digit; so the amount's digit run is delimited.
proof fn lemma_signature_lit_head()
    ensures
        crate::jsonenc::lit_bytes(",\"signature\":"@).len() >= 1,
        crate::jsonenc::lit_bytes(",\"signature\":"@)[0] == 44,
{
    reveal_strlit(",\"signature\":");
    vstd::utf8::is_ascii_chars_encode_utf8(",\"signature\":"@);
    assert(vstd::utf8::is_ascii_chars(",\"signature\":"@));
    assert(crate::jsonenc::lit_bytes(",\"signature\":"@) =~= Seq::new(
        (",\"signature\":"@).len(),
        |i: int| (",\"signature\":"@)[i] as u8,
    ));
    assert((",\"signature\":"@)[0] == ',');
}

/// A region holding a two-part concatenation splits into its parts.
proof fn lemma_peel(b: Seq<u8>, lo: int, hi: int, x: Seq<u8>, y: Seq<u8>)
    requires
        0 <= lo,
        hi <= b.len(),
        hi - lo == x.len() + y.len(),
        b.subrange(lo, hi) == x + y,
    ensures
        b.subrange(lo, lo + x.len()) == x,
        b.subrange(lo + x.len(), hi) == y,
{
    assert forall|m: int|
        0 <= m < x.len() implies b.subrange(lo, lo + x.len())[m] == #[trigger] x[m] by {
        assert(b.subrange(lo, hi)[m] == (x + y)[m]);
    }
    assert(b.subrange(lo, lo + x.len()) =~= x);
    assert forall|m: int|
        0 <= m < y.len() implies b.subrange(lo + x.len(), hi)[m] == #[trigger] y[m] by {
        assert(b.subrange(lo + x.len(), hi)[m] == b[lo + x.len() + m]);
        assert(b.subrange(lo, hi)[x.len() as int + m] == b[lo + x.len() + m]);
        assert(b.subrange(lo, hi)[x.len() as int + m] == (x + y)[x.len() as int + m]);
        assert((x + y)[x.len() as int + m] == y[m]);
    }
    assert(b.subrange(lo + x.len(), hi) =~= y);
}

/// A region holding a plain quoted string is that string's place.
proof fn lemma_str_piece(b: Seq<u8>, o: int, cs: Seq<char>)
    requires
        crate::jsonenc::plain_bytes(vstd::utf8::encode_utf8(cs)),
        0 <= o,
        o + vstd::utf8::encode_utf8(cs).len() + 2 <= b.len(),
        b.subrange(o, o + vstd::utf8::encode_utf8(cs).len() + 2) == seq![34u8]
            + vstd::utf8::encode_utf8(cs) + seq![34u8],
    ensures
        plain_str_at(b, o, cs),
{
    let e = vstd::utf8::encode_utf8(cs);
    let s = seq![34u8] + e + seq![34u8];
    assert(b[o] == s[0]) by {
        assert(b.subrange(o, o + e.len() + 2)[0] == s[0]);
    }
    assert(b[o + 1 + e.len()] == s[1 + e.len() as int]) by {
        assert(b.subrange(o, o + e.len() + 2)[1 + e.len() as int] == s[1 + e.len() as int]);
    }
    assert forall|j: int| 0 <= j < e.len() implies b[o + 1 + j] == #[trigger] e[j] by {
        assert(b.subrange(o, o + e.len() + 2)[1 + j] == s[1 + j]);
    }
}

/// Laying out the canonical encoding of a plain transaction at `pos`
/// places every piece where the shape says.
#[verifier::rlimit(100)]
pub proof fn lemma_tx_enc_shape(b: Seq<u8>, pos: int, t: TransactionModel)
    requires
        tx_plain(t),
        0 <= pos,
        pos + crate::jsonenc::tx_enc(t).len() <= b.len(),
        b.subrange(pos, pos + crate::jsonenc::tx_enc(t).len()) == crate::jsonenc::tx_enc(t),
    ensures
        tx_shape_at(b, pos, t),
{
    lemma_signature_lit_head();
    let enc = crate::jsonenc::tx_enc(t);
    let l1 = crate::jsonenc::lit_bytes("{\"from\":"@);
    let e1 = vstd::utf8::encode_utf8(t.from);
    let l2 = crate::jsonenc::lit_bytes(",\"pub_key\":"@);
    let e2 = vstd::utf8::encode_utf8(t.pub_key);
    let l3 = crate::jsonenc::lit_bytes(",\"to\":"@);
    let e3 = vstd::utf8::encode_utf8(t.to);
    let l4 = crate::jsonenc::lit_bytes(",\"amount\":"@);
    let a = crate::decfmt::dec_bytes_i64(t.amount);
    let l5 = crate::jsonenc::lit_bytes(",\"signature\":"@);
    let e5 = vstd::utf8::encode_utf8(t.signature);
    let l6 = crate::jsonenc::lit_bytes("}"@);
    crate::jsonenc::lemma_esc_bytes_plain(e1);
    crate::jsonenc::lemma_esc_bytes_plain(e2);
    crate::jsonenc::lemma_esc_bytes_plain(e3);
    crate::jsonenc::lemma_esc_bytes_plain(e5);
    let s1 = seq![34u8] + e1 + seq![34u8];
    let s2 = seq![34u8] + e2 + seq![34u8];
    let s3 = seq![34u8] + e3 + seq![34u8];
    let s5 = seq![34u8] + e5 + seq![34u8];
    let p2 = l1 + s1;
    let p3 = p2 + l2;
    let p4 = p3 + s2;
    let p5 = p4 + l3;
    let p6 = p5 + s3;
    let p7 = p6 + l4;
    let p8 = p7 + a;
    let p9 = p8 + l5;
    let p10 = p9 + s5;
    assert(enc == p10 + l6) by {
        reveal(crate::jsonenc::tx_enc);
        assert(crate::jsonenc::json_string_enc(t.from) =~= s1);
        assert(crate::jsonenc::json_string_enc(t.pub_key) =~= s2);
        assert(crate::jsonenc::json_string_enc(t.to) =~= s3);
        assert(crate::jsonenc::json_string_enc(t.signature) =~= s5);
        assert(enc =~= p10 + l6);
    }
    let hi = pos + enc.len();
    lemma_peel(b, pos, hi, p10, l6);
    lemma_peel(b, pos, pos + p10.len(), p9, s5);
    lemma_peel(b, pos, pos + p9.len(), p8, l5);
    lemma_peel(b, pos, pos + p8.len(), p7, a);
    lemma_peel(b, pos, pos + p7.len(), p6, l4);
    lemma_peel(b, pos, pos + p6.len(), p5, s3);
    lemma_peel(b, pos, pos + p5.len(), p4, l3);
    lemma_peel(b, pos, pos + p4.len(), p3, s2);
    lemma_peel(b, pos, pos + p3.len(), p2, l2);
    lemma_peel(b, pos, pos + p2.len(), l1, s1);
    let o1 = pos + l1.len();
    let o2 = o1 + e1.len() + 2;
    let o3 = o2 + l2.len();
    let o4 = o3 + e2.len() + 2;
    let o5 = o4 + l3.len();
    let o6 = o5 + e3.len() + 2;
    let o7 = o6 + l4.len();
    let o8 = o7 + a.len();
    let o9 = o8 + l5.len();
    let o10 = o9 + e5.len() + 2;
    lemma_str_piece(b, o1, t.from);
    lemma_str_piece(b, o3, t.pub_key);
    lemma_str_piece(b, o5, t.to);
    lemma_str_piece(b, o9, t.signature);
    assert(i64_hyp_at(b, o7, t.amount as i64)) by {
        assert(a == crate::decfmt::dec_bytes_i64((t.amount as i64) as int));
        assert(b[o8] == l5[0]) by {
            assert(b.subrange(o8, o8 + l5.len())[0] == l5[0]);
        }
        assert(!crate::decfmt::is_digit_byte(b[o7 + a.len()]));
    }
}

/// Parse the three leading string fields of a transaction object.
#[verifier::rlimit(100)]
fn parse_tx_strings(buf: &Vec<u8>, pos: usize) -> (r: Option<(String, String, String, usize)>)
    ensures
        r is Some ==> pos <= r->Some_0.3 <= buf@.len(),
        forall|t: TransactionModel|
            tx_plain(t) && tx_shape_at(buf@, pos as int, t) ==> r is Some && r->Some_0.0@
                == t.from && r->Some_0.1@ == t.pub_key && r->Some_0.2@ == t.to && r->Some_0.3
                == pos + crate::jsonenc::lit_bytes("{\"from\":"@).len()
                + vstd::utf8::encode_utf8(t.from).len() + 2 + crate::jsonenc::lit_bytes(
                ",\"pub_key\":"@,
            ).len() + vstd::utf8::encode_utf8(t.pub_key).len() + 2 + crate::jsonenc::lit_bytes(
                ",\"to\":"@,
            ).len() + vstd::utf8::encode_utf8(t.to).len() + 2,
{
    let p1 = match expect_lit(buf, pos, "{\"from\":") {
        Some(p) => p,
        None => {
            proof {
                assert forall|t: TransactionModel|
                    !(tx_plain(t) && tx_shape_at(buf@, pos as int, t)) by {}
            }
            return None;
        },
    };
    proof {
        assert forall|t: TransactionModel|
            tx_plain(t) && tx_shape_at(buf@, pos as int, t) implies p1 == pos
            + crate::jsonenc::lit_bytes("{\"from\":"@).len() by {}
    }
    let (from, p2) = match parse_string_at(buf, p1) {
        Some(x) => x,
        None => {
            proof {
                assert forall|t: TransactionModel|
                    !(tx_plain(t) && tx_shape_at(buf@, pos as int, t)) by {
                    if tx_plain(t) && tx_shape_at(buf@, pos as int, t) {
                        assert(plain_str_at(buf@, p1 as int, t.from));
                    }
                }
            }
            return None;
        },
    };
    proof {
        assert forall|t: TransactionModel|
            tx_plain(t) && tx_shape_at(buf@, pos as int, t) implies from@ == t.from && p2 == p1
            + 2 + vstd::utf8::encode_utf8(t.from).len() by {
            assert(plain_str_at(buf@, p1 as int, t.from));
        }
    }
    let p3 = match expect_lit(buf, p2, ",\"pub_key\":") {
        Some(p) => p,
        None => {
            proof {
                assert forall|t: TransactionModel|
                    !(tx_plain(t) && tx_shape_at(buf@, pos as int, t)) by {}
            }
            return None;
        },
    };
    proof {
        assert forall|t: TransactionModel|
            tx_plain(t) && tx_shape_at(buf@, pos as int, t) implies p3 == p2
            + crate::jsonenc::lit_bytes(",\"pub_key\":"@).len() by {}
    }
    let (pub_key, p4) = match parse_string_at(buf, p3) {
        Some(x) => x,
        None => {
            proof {
                assert forall|t: TransactionModel|
                    !(tx_plain(t) && tx_shape_at(buf@, pos as int, t)) by {
                    if tx_plain(t) && tx_shape_at(buf@, pos as int, t) {
                        assert(plain_str_at(buf@, p3 as int, t.pub_key));
                    }
                }
            }
            return None;
        },
    };
    proof {
        assert forall|t: TransactionModel|
            tx_plain(t) && tx_shape_at(buf@, pos as int, t) implies pub_key@ == t.pub_key && p4
            == p3 + 2 + vstd::utf8::encode_utf8(t.pub_key).len() by {
            assert(plain_str_at(buf@, p3 as int, t.pub_key));
        }
    }
    let p5 = match expect_lit(buf, p4, ",\"to\":") {
        Some(p) => p,
        None => {
            proof {
                assert forall|t: TransactionModel|
                    !(tx_plain(t) && tx_shape_at(buf@, pos as int, t)) by {}
            }
            return None;
        },
    };
    proof {
        assert forall|t: TransactionModel|
            tx_plain(t) && tx_shape_at(buf@, pos as int, t) implies p5 == p4
            + crate::jsonenc::lit_bytes(",\"to\":"@).len() by {}
    }
    let (to, p6) = match parse_string_at(buf, p5) {
        Some(x) => x,
        None => {
            proof {
                assert forall|t: TransactionModel|
                    !(tx_plain(t) && tx_shape_at(buf@, pos as int, t)) by {
                    if tx_plain(t) && tx_shape_at(buf@, pos as int, t) {
                        assert(plain_str_at(buf@, p5 as int, t.to));
                    }
                }
            }
            return None;
        },
    };
    proof {
        assert forall|t: TransactionModel|
            tx_plain(t) && tx_shape_at(buf@, pos as int, t) implies to@ == t.to && p6 == p5 + 2
            + vstd::utf8::encode_utf8(t.to).len() by {
            assert(plain_str_at(buf@, p5 as int, t.to));
        }
    }
    Some((from, pub_key, to, p6))
}

/// Parse one transaction object. Where the canonical encoding of a plain
/// transaction is laid out at `pos`, success with exactly that
/// transaction is owed.
#[verifier::rlimit(100)]
pub(crate) fn parse_tx_at(buf: &Vec<u8>, pos: usize) -> (r: Option<(Transaction, usize)>)
    ensures
        r is Some ==> pos <= r->Some_0.1 <= buf@.len(),
        forall|t: TransactionModel|
            tx_plain(t) && tx_shape_at(buf@, pos as int, t) ==> r is Some && r->Some_0.0@ == t
                && r->Some_0.1 == pos + crate::jsonenc::tx_enc(t).len(),
{
    let blen = buf.len();
    let (from, pub_key, to, p6) = match parse_tx_strings(buf, pos) {
        Some(x) => x,
        None => {
            proof {
                assert forall|t: TransactionModel|
                    !(tx_plain(t) && tx_shape_at(buf@, pos as int, t)) by {}
            }
            return None;
        },
    };
    let p7 = match expect_lit(buf, p6, ",\"amount\":") {
        Some(p) => p,
        None => {
            proof {
                assert forall|t: TransactionModel|
                    !(tx_plain(t) && tx_shape_at(buf@, pos as int, t)) by {}
            }
            return None;
        },
    };
    proof {
        assert forall|t: TransactionModel|
            tx_plain(t) && tx_shape_at(buf@, pos as int, t) implies p7 == p6
            + crate::jsonenc::lit_bytes(",\"amount\":"@).len() by {}
    }
    let (amount, p8) = match parse_i64_at(buf, p7) {
        Some(x) => x,
        None => {
            proof {
                assert forall|t: TransactionModel|
                    !(tx_plain(t) && tx_shape_at(buf@, pos as int, t)) by {
                    if tx_plain(t) && tx_shape_at(buf@, pos as int, t) {
                        assert(i64_hyp_at(buf@, p7 as int, t.amount as i64));
                        assert(crate::decfmt::dec_bytes_i64((t.amount as i64) as int)
                            == crate::decfmt::dec_bytes_i64(t.amount));
                    }
                }
            }
            return None;
        },
    };
    proof {
        assert forall|t: TransactionModel|
            tx_plain(t) && tx_shape_at(buf@, pos as int, t) implies amount as int == t.amount
            && p8 == p7 + crate::decfmt::dec_bytes_i64(t.amount).len() by {
            assert(i64_hyp_at(buf@, p7 as int, t.amount as i64));
            assert(crate::decfmt::dec_bytes_i64((t.amount as i64) as int)
                == crate::decfmt::dec_bytes_i64(t.amount));
            assert(p7 + crate::decfmt::dec_bytes_i64(t.amount).len() <= blen);
        }
    }
    let p9 = match expect_lit(buf, p8, ",\"signature\":") {
        Some(p) => p,
        None => {
            proof {
                assert forall|t: TransactionModel|
                    !(tx_plain(t) && tx_shape_at(buf@, pos as int, t)) by {}
            }
            return None;
        },
    };
    proof {
        assert forall|t: TransactionModel|
            tx_plain(t) && tx_shape_at(buf@, pos as int, t) implies p9 == p8
            + crate::jsonenc::lit_bytes(",\"signature\":"@).len() by {}
    }
    let (signature, p10) = match parse_string_at(buf, p9) {
        Some(x) => x,
        None => {
            proof {
                assert forall|t: TransactionModel|
                    !(tx_plain(t) && tx_shape_at(buf@, pos as int, t)) by {
                    if tx_plain(t) && tx_shape_at(buf@, pos as int, t) {
                        assert(plain_str_at(buf@, p9 as int, t.signature));
                    }
                }
            }
            return None;
        },
    };
    proof {
        assert forall|t: TransactionModel|
            tx_plain(t) && tx_shape_at(buf@, pos as int, t) implies signature@ == t.signature
            && p10 == p9 + 2 + vstd::utf8::encode_utf8(t.signature).len() by {
            assert(plain_str_at(buf@, p9 as int, t.signature));
        }
    }
    let p11 = match expect_lit(buf, p10, "}") {
        Some(p) => p,
        None => {
            proof {
                assert forall|t: TransactionModel|
                    !(tx_plain(t) && tx_shape_at(buf@, pos as int, t)) by {}
            }
            return None;
        },
    };
    let tx = Transaction { from, pub_key, to, amount, signature };
    proof {
        assert forall|t: TransactionModel|
            tx_plain(t) && tx_shape_at(buf@, pos as int, t) implies tx@ == t && p11 == pos
            + crate::jsonenc::tx_enc(t).len() by {
            assert(tx@ =~= t);
        }
    }
    Some((tx, p11))
}

/// Parse a transaction array./// Parse a transaction array.
fn parse_txs_at(buf: &Vec<u8>, pos: usize) -> (r: Option<(Vec<Transaction>, usize)>)
    ensures
        r is Some ==> pos < r->Some_0.1 <= buf@.len(),
{
    if pos >= buf.len() || buf[pos] != 91 {
        return None;
    }
    let mut txs: Vec<Transaction> = Vec::new();
    let mut p: usize = pos + 1;
    if p < buf.len() && buf[p] == 93 {
        return Some((txs, p + 1));
    }
    loop
        invariant
            pos < p,
            p <= buf@.len(),
        decreases buf@.len() - p,
    {
        match parse_tx_at(buf, p) {
            Some((tx, np)) => {
                txs.push(tx);
                if np >= buf.len() {
                    return None;
                }
                if buf[np] == 93 {
                    return Some((txs, np + 1));
                }
                if buf[np] != 44 {
                    return None;
                }
                if np + 1 <= p {
                    return None;
                }
                p = np + 1;
            },
            None => {
                return None;
            },
        }
    }
}

/// Parse one block object.
fn parse_block_at(buf: &Vec<u8>, pos: usize) -> (r: Option<(Block, usize)>)
    ensures
        r is Some ==> pos <= r->Some_0.1 <= buf@.len(),
{
    let p = expect_lit(buf, pos, "{\"index\":")?;
    let (index, p) = parse_u64_at(buf, p)?;
    let p = expect_lit(buf, p, ",\"timestamp\":")?;
    let (timestamp, p) = parse_u64_at(buf, p)?;
    let p = expect_lit(buf, p, ",\"transactions\":")?;
    let (transactions, p) = parse_txs_at(buf, p)?;
    let p = expect_lit(buf, p, ",\"prev_hash\":")?;
    let (prev_hash, p) = parse_string_at(buf, p)?;
    let p = expect_lit(buf, p, ",\"hash\":")?;
    let (hash, p) = parse_string_at(buf, p)?;
    let p = expect_lit(buf, p, ",\"nonce\":")?;
    let (nonce64, p) = parse_u64_at(buf, p)?;
    if nonce64 > 0xffff_ffffu64 {
        return None;
    }
    let p = expect_lit(buf, p, ",\"difficulty\":")?;
    let (difficulty64, p) = parse_u64_at(buf, p)?;
    if difficulty64 > 0xffff_ffffu64 {
        return None;
    }
    let p = expect_lit(buf, p, "}")?;
    Some(
        (
            Block {
                index,
                timestamp,
                transactions,
                prev_hash,
                hash,
                nonce: nonce64 as u32,
                difficulty: difficulty64 as u32,
            },
            p,
        ),
    )
}

/// Parse the block items of the chain array, through the closing bracket.
fn parse_blocks_items(buf: &Vec<u8>, pos: usize) -> (r: Option<(Vec<Block>, usize)>)
    ensures
        r is Some ==> pos <= r->Some_0.1 <= buf@.len(),
{
    let mut blocks: Vec<Block> = Vec::new();
    if pos > buf.len() {
        return None;
    }
    if pos < buf.len() && buf[pos] == 93 {
        return Some((blocks, pos + 1));
    }
    let mut p: usize = pos;
    loop
        invariant
            pos <= p,
            p <= buf@.len(),
        decreases buf@.len() - p,
    {
        match parse_block_at(buf, p) {
            Some((b, np)) => {
                blocks.push(b);
                if np >= buf.len() {
                    return None;
                }
                if buf[np] == 93 {
                    return Some((blocks, np + 1));
                }
                if buf[np] != 44 {
                    return None;
                }
                if np + 1 <= p {
                    return None;
                }
                p = np + 1;
            },
            None => {
                return None;
            },
        }
    }
}

/// Parse a whole chain document body.
fn parse_chain_at(buf: &Vec<u8>, pos: usize) -> (r: Option<(Blockchain, usize)>)
    ensures
        r is Some ==> pos <= r->Some_0.1 <= buf@.len(),
{
    let p = expect_lit(buf, pos, "{\"chain\":[")?;
    let (blocks, p) = parse_blocks_items(buf, p)?;
    let p = expect_lit(buf, p, ",\"target_block_time\":")?;
    let (target_block_time, p) = parse_i64_at(buf, p)?;
    let p = expect_lit(buf, p, "}")?;
    Some((Blockchain { chain: blocks, target_block_time }, p))
}

/// Parse a transaction document. A result is returned only when the input
/// is exactly the canonical encoding of that transaction; on the canonical
/// encoding of a plain transaction, success with that transaction is owed.
pub fn parse_tx_json(bytes: &Vec<u8>) -> (r: Option<Transaction>)
    ensures
        r is Some ==> tx_enc(r->Some_0@) == bytes@,
        forall|t: TransactionModel|
            tx_plain(t) && tx_enc(t) == bytes@ ==> r is Some && r->Some_0@ == t,
{
    proof {
        assert forall|t: TransactionModel|
            tx_plain(t) && tx_enc(t) == bytes@ implies tx_shape_at(bytes@, 0, t) by {
            assert(bytes@.subrange(0, tx_enc(t).len() as int) =~= tx_enc(t));
            lemma_tx_enc_shape(bytes@, 0, t);
        }
    }
    match parse_tx_at(bytes, 0) {
        Some((tx, p)) => {
            if p != bytes.len() {
                proof {
                    assert forall|t: TransactionModel|
                        !(tx_plain(t) && tx_enc(t) == bytes@) by {
                        if tx_plain(t) && tx_enc(t) == bytes@ {
                            assert(p == tx_enc(t).len());
                        }
                    }
                }
                return None;
            }
            let reenc = tx_to_json(&tx);
            if bytes_eq(&reenc, bytes) {
                Some(tx)
            } else {
                proof {
                    assert forall|t: TransactionModel|
                        !(tx_plain(t) && tx_enc(t) == bytes@) by {
                        if tx_plain(t) && tx_enc(t) == bytes@ {
                            assert(tx@ == t);
                            assert(reenc@ == bytes@);
                        }
                    }
                }
                None
            }
        },
        None => {
            proof {
                assert forall|t: TransactionModel| !(tx_plain(t) && tx_enc(t) == bytes@) by {}
            }
            None
        },
    }
}

/// Parse a block document. A result is returned only when the input is
/// exactly the canonical encoding of that block.
pub fn parse_block_json(bytes: &Vec<u8>) -> (r: Option<Block>)
    ensures
        r is Some ==> block_enc(r->Some_0@) == bytes@,
{
    match parse_block_at(bytes, 0) {
        Some((b, p)) => {
            if p != bytes.len() {
                return None;
            }
            let reenc = block_to_json(&b);
            if bytes_eq(&reenc, bytes) {
                Some(b)
            } else {
                None
            }
        },
        None => None,
    }
}

/// Parse a chain document. A result is returned only when the input is
/// exactly the canonical encoding of that chain.
pub fn parse_chain_json(bytes: &Vec<u8>) -> (r: Option<Blockchain>)
    ensures
        r is Some ==> chain_enc(r->Some_0@) == bytes@,
{
    match parse_chain_at(bytes, 0) {
        Some((bc, p)) => {
            if p != bytes.len() {
                return None;
            }
            let reenc = chain_to_json(&bc);
            if bytes_eq(&reenc, bytes) {
                Some(bc)
            } else {
                None
            }
        },
        None => None,
    }
}

/// Parse a transaction array document, as `getmempool` answers. A result
/// comes back only when the input is the canonical encoding of the list.
pub fn parse_txs_json(bytes: &Vec<u8>) -> (r: Option<Vec<Transaction>>)
    ensures
        r is Some ==> crate::jsonenc::txs_enc(crate::model::tx_views(r->Some_0@)) == bytes@,
{
    if bytes.len() == 0 || bytes[0] != 91 {
        return None;
    }
    let mut txs: Vec<Transaction> = Vec::new();
    let mut p: usize = 1;
    if p < bytes.len() && bytes[p] == 93 {
        if p + 1 != bytes.len() {
            return None;
        }
        let reenc = crate::jsonenc::txs_to_json(&txs);
        if bytes_eq(&reenc, bytes) {
            return Some(txs);
        }
        return None;
    }
    loop
        invariant
            p <= bytes@.len(),
        decreases bytes@.len() - p,
    {
        match parse_tx_at(bytes, p) {
            Some((tx, np)) => {
                txs.push(tx);
                if np >= bytes.len() {
                    return None;
                }
                if bytes[np] == 93 {
                    if np + 1 != bytes.len() {
                        return None;
                    }
                    let reenc = crate::jsonenc::txs_to_json(&txs);
                    if bytes_eq(&reenc, bytes) {
                        return Some(txs);
                    }
                    return None;
                }
                if bytes[np] != 44 {
                    return None;
                }
                if np + 1 <= p {
                    return None;
                }
                p = np + 1;
            },
            None => {
                return None;
            },
        }
    }
}

/// The canonical wallet document: the address, the key material, and the
/// remembered node, or `null` when none is remembered.
pub open spec fn wallet_enc(
    address: Seq<char>,
    pub_key: Seq<char>,
    priv_key: Seq<char>,
    node_address: Option<Seq<char>>,
) -> Seq<u8> {
    crate::jsonenc::lit_bytes("{\"address\":"@) + crate::jsonenc::json_string_enc(address)
        + crate::jsonenc::lit_bytes(",\"pub_key\":"@) + crate::jsonenc::json_string_enc(pub_key)
        + crate::jsonenc::lit_bytes(",\"priv_key\":"@) + crate::jsonenc::json_string_enc(priv_key)
        + crate::jsonenc::lit_bytes(",\"node_address\":"@) + (match node_address {
        Some(n) => crate::jsonenc::json_string_enc(n),
        None => crate::jsonenc::lit_bytes("null"@),
    }) + crate::jsonenc::lit_bytes("}"@)
}

/// Build the canonical wallet document.
pub fn wallet_to_json(w: &crate::wallet::Wallet) -> (r: Vec<u8>)
    ensures
        r@ =~= wallet_enc(
            w@.address,
            w@.pub_key,
            w@.priv_key,
            w@.node_address,
        ),
{
    let mut out: Vec<u8> = Vec::new();
    crate::jsonenc::push_lit(&mut out, "{\"address\":");
    crate::jsonenc::push_json_string(&mut out, w.address.as_str());
    crate::jsonenc::push_lit(&mut out, ",\"pub_key\":");
    crate::jsonenc::push_json_string(&mut out, w.pub_key.as_str());
    crate::jsonenc::push_lit(&mut out, ",\"priv_key\":");
    crate::jsonenc::push_json_string(&mut out, w.priv_key.as_str());
    crate::jsonenc::push_lit(&mut out, ",\"node_address\":");
    match w.node_address {
        Some(ref n) => {
            crate::jsonenc::push_json_string(&mut out, n.as_str());
        },
        None => {
            crate::jsonenc::push_lit(&mut out, "null");
        },
    }
    crate::jsonenc::push_lit(&mut out, "}");
    out
}

/// Parse a wallet document. A result comes back only when the input is
/// its canonical encoding.
pub fn parse_wallet_json(bytes: &Vec<u8>) -> (r: Option<crate::wallet::Wallet>)
    ensures
        r is Some ==> wallet_enc(
            r->Some_0@.address,
            r->Some_0@.pub_key,
            r->Some_0@.priv_key,
            r->Some_0@.node_address,
        ) == bytes@,
{
    let p = expect_lit(bytes, 0, "{\"address\":")?;
    let (address, p) = parse_string_at(bytes, p)?;
    let p = expect_lit(bytes, p, ",\"pub_key\":")?;
    let (pub_key, p) = parse_string_at(bytes, p)?;
    let p = expect_lit(bytes, p, ",\"priv_key\":")?;
    let (priv_key, p) = parse_string_at(bytes, p)?;
    let p = expect_lit(bytes, p, ",\"node_address\":")?;
    let (node_address, p): (Option<String>, usize) = if p < bytes.len() && bytes[p] == 110 {
        let p2 = expect_lit(bytes, p, "null")?;
        (None, p2)
    } else {
        let (n, p2) = parse_string_at(bytes, p)?;
        (Some(n), p2)
    };
    let p = expect_lit(bytes, p, "}")?;
    if p != bytes.len() {
        return None;
    }
    let w = crate::wallet::Wallet { address, pub_key, priv_key, node_address };
    let reenc = wallet_to_json(&w);
    if bytes_eq(&reenc, bytes) {
        Some(w)
    } else {
        None
    }
}

/// The comma-separated items of a JSON array of strings.
pub open spec fn str_array_items(ss: Seq<Seq<char>>) -> Seq<u8>
    decreases ss.len(),
{
    if ss.len() == 0 {
        Seq::empty()
    } else if ss.len() == 1 {
        crate::jsonenc::json_string_enc(ss[0])
    } else {
        crate::jsonenc::json_string_enc(ss[0]) + seq![44u8] + str_array_items(ss.drop_first())
    }
}

/// A JSON array of strings.
pub open spec fn str_array_enc(ss: Seq<Seq<char>>) -> Seq<u8> {
    seq![91u8] + str_array_items(ss) + seq![93u8]
}

proof fn lemma_str_array_items_push(ss: Seq<Seq<char>>, s: Seq<char>)
    ensures
        ss.len() == 0 ==> str_array_items(ss.push(s)) =~= crate::jsonenc::json_string_enc(s),
        ss.len() > 0 ==> str_array_items(ss.push(s)) =~= str_array_items(ss) + seq![44u8]
            + crate::jsonenc::json_string_enc(s),
    decreases ss.len(),
{
    if ss.len() > 0 {
        assert(ss.push(s).drop_first() =~= ss.drop_first().push(s));
        lemma_str_array_items_push(ss.drop_first(), s);
    }
}

/// The views of a vector of strings.
pub open spec fn str_views(ss: Seq<String>) -> Seq<Seq<char>> {
    Seq::new(ss.len(), |i: int| ss[i]@)
}

/// Append a JSON array of strings.
fn push_str_array(out: &mut Vec<u8>, ss: &Vec<String>)
    ensures
        final(out)@ =~= old(out)@ + str_array_enc(str_views(ss@)),
{
    out.push(91);
    let mut i: usize = 0;
    while i < ss.len()
        invariant
            i <= ss@.len(),
            out@ =~= old(out)@ + seq![91u8] + str_array_items(str_views(ss@).subrange(0, i as int)),
        decreases ss@.len() - i,
    {
        if i > 0 {
            out.push(44);
        }
        crate::jsonenc::push_json_string(out, ss[i].as_str());
        proof {
            assert(str_views(ss@).subrange(0, i + 1) =~= str_views(ss@).subrange(0, i as int).push(
                ss@[i as int]@,
            ));
            lemma_str_array_items_push(str_views(ss@).subrange(0, i as int), ss@[i as int]@);
        }
        i = i + 1;
        proof {
            assert(out@ =~= old(out)@ + seq![91u8] + str_array_items(
                str_views(ss@).subrange(0, i as int),
            ));
        }
    }
    out.push(93);
    proof {
        assert(str_views(ss@).subrange(0, ss@.len() as int) =~= str_views(ss@));
        assert(out@ =~= old(out)@ + str_array_enc(str_views(ss@)));
    }
}

/// Parse a JSON array of strings.
fn parse_str_array_at(buf: &Vec<u8>, pos: usize) -> (r: Option<(Vec<String>, usize)>)
    ensures
        r is Some ==> pos < r->Some_0.1 <= buf@.len(),
{
    if pos >= buf.len() || buf[pos] != 91 {
        return None;
    }
    let mut out: Vec<String> = Vec::new();
    let mut p: usize = pos + 1;
    if p < buf.len() && buf[p] == 93 {
        return Some((out, p + 1));
    }
    loop
        invariant
            pos < p,
            p <= buf@.len(),
        decreases buf@.len() - p,
    {
        match parse_string_at(buf, p) {
            Some((s, np)) => {
                out.push(s);
                if np >= buf.len() {
                    return None;
                }
                if buf[np] == 93 {
                    return Some((out, np + 1));
                }
                if buf[np] != 44 {
                    return None;
                }
                p = np + 1;
            },
            None => {
                return None;
            },
        }
    }
}

/// The canonical rendering of a boolean.
pub open spec fn bool_enc(b: bool) -> Seq<u8> {
    if b {
        crate::jsonenc::lit_bytes("true"@)
    } else {
        crate::jsonenc::lit_bytes("false"@)
    }
}

/// Append a boolean.
fn push_bool(out: &mut Vec<u8>, b: bool)
    ensures
        final(out)@ =~= old(out)@ + bool_enc(b),
{
    if b {
        crate::jsonenc::push_lit(out, "true");
    } else {
        crate::jsonenc::push_lit(out, "false");
    }
}

/// Parse a boolean.
fn parse_bool_at(buf: &Vec<u8>, pos: usize) -> (r: Option<(bool, usize)>)
    ensures
        r is Some ==> pos <= r->Some_0.1 <= buf@.len(),
{
    if pos < buf.len() && buf[pos] == 116 {
        let p = expect_lit(buf, pos, "true")?;
        Some((true, p))
    } else {
        let p = expect_lit(buf, pos, "false")?;
        Some((false, p))
    }
}

/// The canonical configuration document, fields in declaration order.
pub open spec fn config_enc(c: crate::config::ConfigModel) -> Seq<u8> {
    crate::jsonenc::lit_bytes("{\"node_address\":"@) + crate::jsonenc::json_string_enc(
        c.node_address,
    ) + crate::jsonenc::lit_bytes(",\"daemon_port\":"@) + crate::decfmt::dec_bytes(
        c.daemon_port as nat,
    ) + crate::jsonenc::lit_bytes(",\"web_port\":"@) + crate::decfmt::dec_bytes(c.web_port as nat)
        + crate::jsonenc::lit_bytes(",\"wallet_path\":"@) + crate::jsonenc::json_string_enc(
        c.wallet_path,
    ) + crate::jsonenc::lit_bytes(",\"mining_threads\":"@) + crate::decfmt::dec_bytes(
        c.mining_threads as nat,
    ) + crate::jsonenc::lit_bytes(",\"peers\":"@) + str_array_enc(c.peers)
        + crate::jsonenc::lit_bytes(",\"auto_update\":"@) + bool_enc(c.auto_update)
        + crate::jsonenc::lit_bytes(",\"sync_on_startup\":"@) + bool_enc(c.sync_on_startup)
        + crate::jsonenc::lit_bytes(",\"target_block_time\":"@) + crate::decfmt::dec_bytes_i64(
        c.target_block_time as int,
    ) + crate::jsonenc::lit_bytes(",\"mining_intensity\":"@) + crate::decfmt::dec_bytes(
        c.mining_intensity as nat,
    ) + crate::jsonenc::lit_bytes(",\"pool\":"@) + bool_enc(c.pool) + crate::jsonenc::lit_bytes(
        "}"@,
    )
}

/// Build the canonical configuration document.
#[verifier::rlimit(100)]
pub fn config_to_json(c: &crate::config::Config) -> (r: Vec<u8>)
    ensures
        r@ =~= config_enc(c@),
{
    let mut out: Vec<u8> = Vec::new();
    crate::jsonenc::push_lit(&mut out, "{\"node_address\":");
    crate::jsonenc::push_json_string(&mut out, c.node_address.as_str());
    crate::jsonenc::push_lit(&mut out, ",\"daemon_port\":");
    crate::decfmt::push_dec_u64(&mut out, c.daemon_port as u64);
    crate::jsonenc::push_lit(&mut out, ",\"web_port\":");
    crate::decfmt::push_dec_u64(&mut out, c.web_port as u64);
    crate::jsonenc::push_lit(&mut out, ",\"wallet_path\":");
    crate::jsonenc::push_json_string(&mut out, c.wallet_path.as_str());
    crate::jsonenc::push_lit(&mut out, ",\"mining_threads\":");
    crate::decfmt::push_dec_u64(&mut out, c.mining_threads as u64);
    crate::jsonenc::push_lit(&mut out, ",\"peers\":");
    push_str_array(&mut out, &c.peers);
    crate::jsonenc::push_lit(&mut out, ",\"auto_update\":");
    push_bool(&mut out, c.auto_update);
    crate::jsonenc::push_lit(&mut out, ",\"sync_on_startup\":");
    push_bool(&mut out, c.sync_on_startup);
    crate::jsonenc::push_lit(&mut out, ",\"target_block_time\":");
    crate::decfmt::push_dec_i64(&mut out, c.target_block_time);
    crate::jsonenc::push_lit(&mut out, ",\"mining_intensity\":");
    crate::decfmt::push_dec_u64(&mut out, c.mining_intensity as u64);
    crate::jsonenc::push_lit(&mut out, ",\"pool\":");
    push_bool(&mut out, c.pool);
    crate::jsonenc::push_lit(&mut out, "}");
    out
}

/// Parse a configuration document. A result comes back only when the
/// input is its canonical encoding.
pub fn parse_config_json(bytes: &Vec<u8>) -> (r: Option<crate::config::Config>)
    ensures
        r is Some ==> config_enc(r->Some_0@) == bytes@,
{
    let p = expect_lit(bytes, 0, "{\"node_address\":")?;
    let (node_address, p) = parse_string_at(bytes, p)?;
    let p = expect_lit(bytes, p, ",\"daemon_port\":")?;
    let (daemon_port64, p) = parse_u64_at(bytes, p)?;
    if daemon_port64 > 0xffffu64 {
        return None;
    }
    let p = expect_lit(bytes, p, ",\"web_port\":")?;
    let (web_port64, p) = parse_u64_at(bytes, p)?;
    if web_port64 > 0xffffu64 {
        return None;
    }
    let p = expect_lit(bytes, p, ",\"wallet_path\":")?;
    let (wallet_path, p) = parse_string_at(bytes, p)?;
    let p = expect_lit(bytes, p, ",\"mining_threads\":")?;
    let (threads64, p) = parse_u64_at(bytes, p)?;
    if threads64 > usize::MAX as u64 {
        return None;
    }
    let p = expect_lit(bytes, p, ",\"peers\":")?;
    let (peers, p) = parse_str_array_at(bytes, p)?;
    let p = expect_lit(bytes, p, ",\"auto_update\":")?;
    let (auto_update, p) = parse_bool_at(bytes, p)?;
    let p = expect_lit(bytes, p, ",\"sync_on_startup\":")?;
    let (sync_on_startup, p) = parse_bool_at(bytes, p)?;
    let p = expect_lit(bytes, p, ",\"target_block_time\":")?;
    let (target_block_time, p) = parse_i64_at(bytes, p)?;
    let p = expect_lit(bytes, p, ",\"mining_intensity\":")?;
    let (intensity64, p) = parse_u64_at(bytes, p)?;
    if intensity64 > 0xffu64 {
        return None;
    }
    let p = expect_lit(bytes, p, ",\"pool\":")?;
    let (pool, p) = parse_bool_at(bytes, p)?;
    let p = expect_lit(bytes, p, "}")?;
    if p != bytes.len() {
        return None;
    }
    let c = crate::config::Config {
        node_address,
        daemon_port: daemon_port64 as u16,
        web_port: web_port64 as u16,
        wallet_path,
        mining_threads: threads64 as usize,
        peers,
        auto_update,
        sync_on_startup,
        target_block_time,
        mining_intensity: intensity64 as u8,
        pool,
    };
    let reenc = config_to_json(&c);
    if bytes_eq(&reenc, bytes) {
        Some(c)
    } else {
        None
    }
}

/// The canonical encoding of an `updatestats` body.
pub open spec fn stats_report_enc(w: Seq<char>, hr: u64, ts: u64) -> Seq<u8> {
    crate::jsonenc::lit_bytes("{\"wallet\":"@) + crate::jsonenc::json_string_enc(w)
        + crate::jsonenc::lit_bytes(",\"hashrate\":"@) + crate::decfmt::dec_bytes(hr as nat)
        + crate::jsonenc::lit_bytes(",\"timestamp\":"@) + crate::decfmt::dec_bytes(ts as nat)
        + crate::jsonenc::lit_bytes("}"@)
}

/// Build the canonical `updatestats` body.
pub fn stats_report_to_json(w: &str, hr: u64, ts: u64) -> (r: Vec<u8>)
    ensures
        r@ =~= stats_report_enc(w@, hr, ts),
{
    let mut out: Vec<u8> = Vec::new();
    crate::jsonenc::push_lit(&mut out, "{\"wallet\":");
    crate::jsonenc::push_json_string(&mut out, w);
    crate::jsonenc::push_lit(&mut out, ",\"hashrate\":");
    crate::decfmt::push_dec_u64(&mut out, hr);
    crate::jsonenc::push_lit(&mut out, ",\"timestamp\":");
    crate::decfmt::push_dec_u64(&mut out, ts);
    crate::jsonenc::push_lit(&mut out, "}");
    out
}

/// Where each piece of an `updatestats` body stands when it is laid out
/// at the start of `b`.
pub open spec fn stats_shape(b: Seq<u8>, w: Seq<char>, h: u64, t: u64) -> bool {
    let l1 = crate::jsonenc::lit_bytes("{\"wallet\":"@);
    let e = vstd::utf8::encode_utf8(w);
    let l2 = crate::jsonenc::lit_bytes(",\"hashrate\":"@);
    let dh = crate::decfmt::dec_bytes(h as nat);
    let l3 = crate::jsonenc::lit_bytes(",\"timestamp\":"@);
    let dt = crate::decfmt::dec_bytes(t as nat);
    let l4 = crate::jsonenc::lit_bytes("}"@);
    let o1 = l1.len() as int;
    let o2 = o1 + e.len() + 2;
    let o3 = o2 + l2.len();
    let o4 = o3 + dh.len();
    let o5 = o4 + l3.len();
    let o6 = o5 + dt.len();
    &&& lit_at(b, 0, l1)
    &&& plain_str_at(b, o1, w)
    &&& lit_at(b, o2, l2)
    &&& u64_hyp_at(b, o3, h)
    &&& lit_at(b, o4, l3)
    &&& u64_hyp_at(b, o5, t)
    &&& lit_at(b, o6, l4)
    &&& o6 + l4.len() == b.len()
}

/// The canonical rendering of `n` stands at `pos`, ending the slice or
/// followed by a non-digit.
pub open spec fn u64_hyp_at(b: Seq<u8>, pos: int, n: u64) -> bool {
    let dn = crate::decfmt::dec_bytes(n as nat);
    &&& 0 <= pos
    &&& pos + dn.len() <= b.len()
    &&& b.subrange(pos, pos + dn.len()) == dn
    &&& (pos + dn.len() == b.len() || !crate::decfmt::is_digit_byte(b[pos + dn.len()]))
}

/// The two literals after the numbers start with a comma and a closing
/// brace, neither a digit.
proof fn lemma_stats_lit_heads()
    ensures
        crate::jsonenc::lit_bytes(",\"timestamp\":"@).len() >= 1,
        crate::jsonenc::lit_bytes(",\"timestamp\":"@)[0] == 44,
        crate::jsonenc::lit_bytes("}"@).len() >= 1,
        crate::jsonenc::lit_bytes("}"@)[0] == 125,
{
    reveal_strlit(",\"timestamp\":");
    reveal_strlit("}");
    vstd::utf8::is_ascii_chars_encode_utf8(",\"timestamp\":"@);
    vstd::utf8::is_ascii_chars_encode_utf8("}"@);
    assert(vstd::utf8::is_ascii_chars(",\"timestamp\":"@) && vstd::utf8::is_ascii_chars("}"@));
    assert(crate::jsonenc::lit_bytes(",\"timestamp\":"@) =~= Seq::new(
        (",\"timestamp\":"@).len(),
        |i: int| (",\"timestamp\":"@)[i] as u8,
    ));
    assert(crate::jsonenc::lit_bytes("}"@) =~= Seq::new(
        ("}"@).len(),
        |i: int| ("}"@)[i] as u8,
    ));
    assert((",\"timestamp\":"@)[0] == ',' && ("}"@)[0] == '}');
}

/// A canonical `updatestats` body for a plain wallet name lays its pieces
/// out where the shape says.
#[verifier::rlimit(100)]
proof fn lemma_stats_enc_shape(b: Seq<u8>, w: Seq<char>, h: u64, t: u64)
    requires
        crate::jsonenc::plain_bytes(vstd::utf8::encode_utf8(w)),
        stats_report_enc(w, h, t) == b,
    ensures
        stats_shape(b, w, h, t),
{
    lemma_stats_lit_heads();
    let enc = stats_report_enc(w, h, t);
    let l1 = crate::jsonenc::lit_bytes("{\"wallet\":"@);
    let e = vstd::utf8::encode_utf8(w);
    let l2 = crate::jsonenc::lit_bytes(",\"hashrate\":"@);
    let dh = crate::decfmt::dec_bytes(h as nat);
    let l3 = crate::jsonenc::lit_bytes(",\"timestamp\":"@);
    let dt = crate::decfmt::dec_bytes(t as nat);
    let l4 = crate::jsonenc::lit_bytes("}"@);
    crate::jsonenc::lemma_esc_bytes_plain(e);
    let sw = seq![34u8] + e + seq![34u8];
    let p2 = l1 + sw;
    let p3 = p2 + l2;
    let p4 = p3 + dh;
    let p5 = p4 + l3;
    let p6 = p5 + dt;
    assert(enc == p6 + l4) by {
        assert(crate::jsonenc::json_string_enc(w) =~= sw);
        assert(enc =~= p6 + l4);
    }
    assert(b.subrange(0, b.len() as int) =~= b);
    let hi = b.len() as int;
    lemma_peel(b, 0, hi, p6, l4);
    lemma_peel(b, 0, p6.len() as int, p5, dt);
    lemma_peel(b, 0, p5.len() as int, p4, l3);
    lemma_peel(b, 0, p4.len() as int, p3, dh);
    lemma_peel(b, 0, p3.len() as int, p2, l2);
    lemma_peel(b, 0, p2.len() as int, l1, sw);
    let o1 = l1.len() as int;
    let o2 = o1 + e.len() + 2;
    let o3 = o2 + l2.len();
    let o4 = o3 + dh.len();
    let o5 = o4 + l3.len();
    let o6 = o5 + dt.len();
    lemma_str_piece(b, o1, w);
    assert(u64_hyp_at(b, o3, h)) by {
        assert(b[o4] == l3[0]) by {
            assert(b.subrange(o4, o4 + l3.len())[0] == l3[0]);
        }
    }
    assert(u64_hyp_at(b, o5, t)) by {
        assert(b[o6] == l4[0]) by {
            assert(b.subrange(o6, o6 + l4.len())[0] == l4[0]);
        }
    }
}

/// Parse an `updatestats` body. A result comes back only when the input is
/// its canonical encoding; on the canonical encoding of a report for a
/// plain wallet name, success with those values is owed.
#[verifier::rlimit(100)]
pub fn parse_stats_report(bytes: &Vec<u8>) -> (r: Option<(String, u64, u64)>)
    ensures
        r is Some ==> stats_report_enc(r->Some_0.0@, r->Some_0.1, r->Some_0.2) == bytes@,
        forall|w: Seq<char>, h: u64, t: u64|
            crate::jsonenc::plain_bytes(vstd::utf8::encode_utf8(w)) && stats_report_enc(w, h, t)
                == bytes@ ==> r is Some && r->Some_0.0@ == w && r->Some_0.1 == h && r->Some_0.2
                == t,
{
    proof {
        assert forall|w: Seq<char>, h: u64, t: u64|
            crate::jsonenc::plain_bytes(vstd::utf8::encode_utf8(w)) && stats_report_enc(w, h, t)
                == bytes@ implies stats_shape(bytes@, w, h, t) by {
            lemma_stats_enc_shape(bytes@, w, h, t);
        }
    }
    let blen = bytes.len();
    let p1 = match expect_lit(bytes, 0, "{\"wallet\":") {
        Some(p) => p,
        None => {
            proof {
                assert forall|w: Seq<char>, h: u64, t: u64|
                    !(crate::jsonenc::plain_bytes(vstd::utf8::encode_utf8(w))
                        && stats_report_enc(w, h, t) == bytes@) by {}
            }
            return None;
        },
    };
    let (wname, p2) = match parse_string_at(bytes, p1) {
        Some(x) => x,
        None => {
            proof {
                assert forall|w: Seq<char>, h: u64, t: u64|
                    !(crate::jsonenc::plain_bytes(vstd::utf8::encode_utf8(w))
                        && stats_report_enc(w, h, t) == bytes@) by {
                    if crate::jsonenc::plain_bytes(vstd::utf8::encode_utf8(w))
                        && stats_report_enc(w, h, t) == bytes@ {
                        assert(plain_str_at(bytes@, p1 as int, w));
                    }
                }
            }
            return None;
        },
    };
    proof {
        assert forall|w: Seq<char>, h: u64, t: u64|
            crate::jsonenc::plain_bytes(vstd::utf8::encode_utf8(w)) && stats_report_enc(w, h, t)
                == bytes@ implies wname@ == w && p2 == p1 + 2 + vstd::utf8::encode_utf8(
            w,
        ).len() by {
            assert(plain_str_at(bytes@, p1 as int, w));
        }
    }
    let p3 = match expect_lit(bytes, p2, ",\"hashrate\":") {
        Some(p) => p,
        None => {
            proof {
                assert forall|w: Seq<char>, h: u64, t: u64|
                    !(crate::jsonenc::plain_bytes(vstd::utf8::encode_utf8(w))
                        && stats_report_enc(w, h, t) == bytes@) by {}
            }
            return None;
        },
    };
    let (hr, p4) = match parse_u64_at(bytes, p3) {
        Some(x) => x,
        None => {
            proof {
                assert forall|w: Seq<char>, h: u64, t: u64|
                    !(crate::jsonenc::plain_bytes(vstd::utf8::encode_utf8(w))
                        && stats_report_enc(w, h, t) == bytes@) by {
                    if crate::jsonenc::plain_bytes(vstd::utf8::encode_utf8(w))
                        && stats_report_enc(w, h, t) == bytes@ {
                        assert(u64_hyp_at(bytes@, p3 as int, h));
                    }
                }
            }
            return None;
        },
    };
    proof {
        assert forall|w: Seq<char>, h: u64, t: u64|
            crate::jsonenc::plain_bytes(vstd::utf8::encode_utf8(w)) && stats_report_enc(w, h, t)
                == bytes@ implies hr == h && p4 == p3 + crate::decfmt::dec_bytes(
            h as nat,
        ).len() by {
            assert(u64_hyp_at(bytes@, p3 as int, h));
            assert(p3 + crate::decfmt::dec_bytes(h as nat).len() <= blen);
        }
    }
    let p5 = match expect_lit(bytes, p4, ",\"timestamp\":") {
        Some(p) => p,
        None => {
            proof {
                assert forall|w: Seq<char>, h: u64, t: u64|
                    !(crate::jsonenc::plain_bytes(vstd::utf8::encode_utf8(w))
                        && stats_report_enc(w, h, t) == bytes@) by {}
            }
            return None;
        },
    };
    let (ts, p6) = match parse_u64_at(bytes, p5) {
        Some(x) => x,
        None => {
            proof {
                assert forall|w: Seq<char>, h: u64, t: u64|
                    !(crate::jsonenc::plain_bytes(vstd::utf8::encode_utf8(w))
                        && stats_report_enc(w, h, t) == bytes@) by {
                    if crate::jsonenc::plain_bytes(vstd::utf8::encode_utf8(w))
                        && stats_report_enc(w, h, t) == bytes@ {
                        assert(u64_hyp_at(bytes@, p5 as int, t));
                    }
                }
            }
            return None;
        },
    };
    proof {
        assert forall|w: Seq<char>, h: u64, t: u64|
            crate::jsonenc::plain_bytes(vstd::utf8::encode_utf8(w)) && stats_report_enc(w, h, t)
                == bytes@ implies ts == t && p6 == p5 + crate::decfmt::dec_bytes(
            t as nat,
        ).len() by {
            assert(u64_hyp_at(bytes@, p5 as int, t));
            assert(p5 + crate::decfmt::dec_bytes(t as nat).len() <= blen);
        }
    }
    let p7 = match expect_lit(bytes, p6, "}") {
        Some(p) => p,
        None => {
            proof {
                assert forall|w: Seq<char>, h: u64, t: u64|
                    !(crate::jsonenc::plain_bytes(vstd::utf8::encode_utf8(w))
                        && stats_report_enc(w, h, t) == bytes@) by {}
            }
            return None;
        },
    };
    if p7 != bytes.len() {
        proof {
            assert forall|w: Seq<char>, h: u64, t: u64|
                !(crate::jsonenc::plain_bytes(vstd::utf8::encode_utf8(w)) && stats_report_enc(
                    w,
                    h,
                    t,
                ) == bytes@) by {}
        }
        return None;
    }
    let reenc = stats_report_to_json(wname.as_str(), hr, ts);
    if bytes_eq(&reenc, bytes) {
        Some((wname, hr, ts))
    } else {
        proof {
            assert forall|w: Seq<char>, h: u64, t: u64|
                !(crate::jsonenc::plain_bytes(vstd::utf8::encode_utf8(w)) && stats_report_enc(
                    w,
                    h,
                    t,
                ) == bytes@) by {
                if crate::jsonenc::plain_bytes(vstd::utf8::encode_utf8(w)) && stats_report_enc(
                    w,
                    h,
                    t,
                ) == bytes@ {
                    assert(reenc@ == bytes@);
                }
            }
        }
        None
    }
}

/// The canonical encoding of a `submitshare` body.
pub open spec fn share_enc(w: Seq<char>, nonce: u32, attempts: u64, b: crate::model::BlockModel) -> Seq<
    u8,
> {
    crate::jsonenc::lit_bytes("{\"wallet\":"@) + crate::jsonenc::json_string_enc(w)
        + crate::jsonenc::lit_bytes(",\"nonce\":"@) + crate::decfmt::dec_bytes(nonce as nat)
        + crate::jsonenc::lit_bytes(",\"attempts\":"@) + crate::decfmt::dec_bytes(attempts as nat)
        + crate::jsonenc::lit_bytes(",\"block\":"@) + block_enc(b) + crate::jsonenc::lit_bytes(
        "}"@,
    )
}

/// Build the canonical `submitshare` body.
pub fn share_to_json(w: &str, nonce: u32, attempts: u64, b: &Block) -> (r: Vec<u8>)
    ensures
        r@ =~= share_enc(w@, nonce, attempts, b@),
{
    let mut out: Vec<u8> = Vec::new();
    crate::jsonenc::push_lit(&mut out, "{\"wallet\":");
    crate::jsonenc::push_json_string(&mut out, w);
    crate::jsonenc::push_lit(&mut out, ",\"nonce\":");
    crate::decfmt::push_dec_u64(&mut out, nonce as u64);
    crate::jsonenc::push_lit(&mut out, ",\"attempts\":");
    crate::decfmt::push_dec_u64(&mut out, attempts);
    crate::jsonenc::push_lit(&mut out, ",\"block\":");
    crate::jsonenc::push_json_block(&mut out, b);
    crate::jsonenc::push_lit(&mut out, "}");
    out
}

/// Parse a `submitshare` body. A result comes back only when the input is
/// its canonical encoding.
pub fn parse_share(bytes: &Vec<u8>) -> (r: Option<(String, u32, u64, Block)>)
    ensures
        r is Some ==> share_enc(r->Some_0.0@, r->Some_0.1, r->Some_0.2, r->Some_0.3@) == bytes@,
{
    let p = expect_lit(bytes, 0, "{\"wallet\":")?;
    let (w, p) = parse_string_at(bytes, p)?;
    let p = expect_lit(bytes, p, ",\"nonce\":")?;
    let (nonce64, p) = parse_u64_at(bytes, p)?;
    if nonce64 > 0xffff_ffffu64 {
        return None;
    }
    let p = expect_lit(bytes, p, ",\"attempts\":")?;
    let (attempts, p) = parse_u64_at(bytes, p)?;
    let p = expect_lit(bytes, p, ",\"block\":")?;
    let (b, p) = parse_block_at(bytes, p)?;
    let p = expect_lit(bytes, p, "}")?;
    if p != bytes.len() {
        return None;
    }
    let reenc = share_to_json(w.as_str(), nonce64 as u32, attempts, &b);
    if bytes_eq(&reenc, bytes) {
        Some((w, nonce64 as u32, attempts, b))
    } else {
        None
    }
}

} // verus!
