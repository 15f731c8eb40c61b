//! Small verified string utilities: equality and substring search over
//! `&str`, reasoned about through the UTF-8 bytes.

use vstd::prelude::*;
use vstd::string::*;
use vstd::utf8::{encode_utf8, encode_utf8_decode_utf8};

verus! {

/// Whether two strings hold the same characters.
pub fn str_eq(a: &str, b: &str) -> (r: bool)
    ensures
        r == (a@ == b@),
{
    proof {
        encode_utf8_decode_utf8(a@);
        encode_utf8_decode_utf8(b@);
    }
    let ab = a.as_bytes_vec();
    let bb = b.as_bytes_vec();
    let n = ab.len();
    if n != bb.len() {
        return false;
    }
    let mut i: usize = 0;
    while i < n
        invariant
            ab@ == encode_utf8(a@),
            bb@ == encode_utf8(b@),
            n == ab@.len(),
            ab@.len() == bb@.len(),
            i <= n,
            forall|j: int| 0 <= j < i ==> ab@[j] == bb@[j],
        decreases n - i,
    {
        if ab[i] != bb[i] {
            return false;
        }
        i = i + 1;
    }
    proof {
        assert(ab@ =~= bb@);
        encode_utf8_decode_utf8(a@);
        encode_utf8_decode_utf8(b@);
        assert(a@ == b@);
    }
    true
}

/// Whether `needle` occurs in `hay` as a contiguous run of bytes.
pub open spec fn bytes_contain(hay: Seq<u8>, needle: Seq<u8>) -> bool {
    exists|i: int|
        0 <= i <= hay.len() - needle.len() && #[trigger] hay.subrange(i, i + needle.len())
            == needle
}

/// Whether the bytes of `nb` occur in `hb` at position `i`.
fn bytes_eq_at(hb: &Vec<u8>, nb: &Vec<u8>, i: usize) -> (r: bool)
    requires
        i + nb@.len() <= hb@.len(),
    ensures
        r == (hb@.subrange(i as int, i + nb@.len() as int) == nb@),
{
    let n = nb.len();
    let hn = hb.len();
    let mut j: usize = 0;
    while j < n
        invariant
            n == nb@.len(),
            hn == hb@.len(),
            i + n <= hb@.len(),
            j <= n,
            forall|m: int| 0 <= m < j ==> hb@[i + m] == #[trigger] nb@[m],
        decreases n - j,
    {
        if hb[i + j] != nb[j] {
            proof {
                assert(hb@.subrange(i as int, i + nb@.len() as int)[j as int] != nb@[j as int]);
            }
            return false;
        }
        j = j + 1;
    }
    proof {
        assert(hb@.subrange(i as int, i + nb@.len() as int) =~= nb@);
    }
    true
}

/// Whether `needle` occurs in `hay`, compared byte-wise on the UTF-8 forms.
pub fn str_contains(hay: &str, needle: &str) -> (r: bool)
    ensures
        r == bytes_contain(encode_utf8(hay@), encode_utf8(needle@)),
{
    let hb = hay.as_bytes_vec();
    let nb = needle.as_bytes_vec();
    let hn = hb.len();
    let nn = nb.len();
    if nn > hn {
        return false;
    }
    let mut i: usize = 0;
    while i <= hn - nn
        invariant
            hb@ == encode_utf8(hay@),
            nb@ == encode_utf8(needle@),
            hn == hb@.len(),
            nn == nb@.len(),
            nn <= hn,
            i <= hn - nn + 1,
            forall|k: int|
                0 <= k < i ==> #[trigger] hb@.subrange(k, k + nb@.len() as int) != nb@,
        decreases hn - nn + 1 - i,
    {
        if bytes_eq_at(&hb, &nb, i) {
            return true;
        }
        proof {
            if nn == 0 {
                assert(hb@.subrange(i as int, i as int) =~= nb@);
            }
        }
        i = i + 1;
    }
    false
}

} // verus!
