//! Lowercase hex encoding and decoding of byte strings, as used for block
//! digests, public keys and signatures.

use vstd::prelude::*;
use vstd::string::*;

verus! {

/// The lowercase hex digit for a nibble value.
pub open spec fn hex_digit_char(n: u8) -> char
    recommends
        n < 16,
{
    if n == 0 {
        '0'
    } else if n == 1 {
        '1'
    } else if n == 2 {
        '2'
    } else if n == 3 {
        '3'
    } else if n == 4 {
        '4'
    } else if n == 5 {
        '5'
    } else if n == 6 {
        '6'
    } else if n == 7 {
        '7'
    } else if n == 8 {
        '8'
    } else if n == 9 {
        '9'
    } else if n == 10 {
        'a'
    } else if n == 11 {
        'b'
    } else if n == 12 {
        'c'
    } else if n == 13 {
        'd'
    } else if n == 14 {
        'e'
    } else {
        'f'
    }
}

/// The lowercase hex rendering of a byte string: two digits per byte,
/// high nibble first.
pub open spec fn hex_of_bytes(bs: Seq<u8>) -> Seq<char> {
    Seq::new(2 * bs.len(), |i: int| {
        if i % 2 == 0 {
            hex_digit_char(bs[i / 2] / 16)
        } else {
            hex_digit_char(bs[i / 2] % 16)
        }
    })
}

pub open spec fn is_hex_char(c: char) -> bool {
    ('0' <= c && c <= '9') || ('a' <= c && c <= 'f') || ('A' <= c && c <= 'F')
}

/// The nibble value of a hex digit, either case.
pub open spec fn hex_char_val(c: char) -> u8
    recommends
        is_hex_char(c),
{
    let n = c as u32;
    if 48 <= n && n <= 57 {
        (n - 48) as u8
    } else if 97 <= n && n <= 102 {
        (n - 87) as u8
    } else if 65 <= n && n <= 70 {
        (n - 55) as u8
    } else {
        0
    }
}

pub open spec fn all_hex_chars(s: Seq<char>) -> bool {
    forall|i: int| 0 <= i < s.len() ==> is_hex_char(#[trigger] s[i])
}

/// The bytes read out of an even-length string of hex digits.
pub open spec fn hex_bytes_of(s: Seq<char>) -> Seq<u8> {
    Seq::new(s.len() / 2, |i: int| (16 * hex_char_val(s[2 * i]) + hex_char_val(s[2 * i + 1])) as u8)
}

/// A one-character string slice holding the hex digit for a nibble.
pub fn hex_digit_str(n: u8) -> (r: &'static str)
    requires
        n < 16,
    ensures
        r@ =~= seq![hex_digit_char(n)],
{
    proof {
        reveal_strlit("0");
        reveal_strlit("1");
        reveal_strlit("2");
        reveal_strlit("3");
        reveal_strlit("4");
        reveal_strlit("5");
        reveal_strlit("6");
        reveal_strlit("7");
        reveal_strlit("8");
        reveal_strlit("9");
        reveal_strlit("a");
        reveal_strlit("b");
        reveal_strlit("c");
        reveal_strlit("d");
        reveal_strlit("e");
        reveal_strlit("f");
    }
    if n == 0 {
        "0"
    } else if n == 1 {
        "1"
    } else if n == 2 {
        "2"
    } else if n == 3 {
        "3"
    } else if n == 4 {
        "4"
    } else if n == 5 {
        "5"
    } else if n == 6 {
        "6"
    } else if n == 7 {
        "7"
    } else if n == 8 {
        "8"
    } else if n == 9 {
        "9"
    } else if n == 10 {
        "a"
    } else if n == 11 {
        "b"
    } else if n == 12 {
        "c"
    } else if n == 13 {
        "d"
    } else if n == 14 {
        "e"
    } else {
        "f"
    }
}

/// Encode a byte string as lowercase hex.
pub fn hex_encode(bs: &Vec<u8>) -> (r: String)
    ensures
        r@ == hex_of_bytes(bs@),
{
    let mut out = String::new();
    let mut i: usize = 0;
    while i < bs.len()
        invariant
            i <= bs.len(),
            out@ =~= hex_of_bytes(bs@.subrange(0, i as int)),
        decreases bs.len() - i,
    {
        let b = bs[i];
        out.append(hex_digit_str(b / 16));
        out.append(hex_digit_str(b % 16));
        i = i + 1;
        proof {
            assert(out@ =~= hex_of_bytes(bs@.subrange(0, i as int)));
        }
    }
    proof {
        assert(bs@.subrange(0, bs@.len() as int) =~= bs@);
    }
    out
}

/// Decode a string of hex digits into bytes. Returns `None` exactly when the
/// length is odd or some character is not a hex digit, either case accepted.
pub fn hex_decode(s: &str) -> (r: Option<Vec<u8>>)
    ensures
        r is Some <==> (s@.len() % 2 == 0 && all_hex_chars(s@)),
        r is Some ==> r->Some_0@ == hex_bytes_of(s@),
{
    let n = s.unicode_len();
    if n % 2 != 0 {
        return None;
    }
    let mut out: Vec<u8> = Vec::new();
    let mut i: usize = 0;
    while i < n
        invariant
            n == s@.len(),
            n % 2 == 0,
            i <= n,
            i % 2 == 0,
            forall|j: int| 0 <= j < i ==> is_hex_char(#[trigger] s@[j]),
            out@ =~= hex_bytes_of(s@.subrange(0, i as int)),
        decreases n - i,
    {
        let c0 = s.get_char(i);
        let c1 = s.get_char(i + 1);
        let v0 = match hex_val_exec(c0) {
            Some(v) => v,
            None => {
                return None;
            },
        };
        let v1 = match hex_val_exec(c1) {
            Some(v) => v,
            None => {
                return None;
            },
        };
        out.push(16 * v0 + v1);
        i = i + 2;
        proof {
            assert(out@ =~= hex_bytes_of(s@.subrange(0, i as int)));
        }
    }
    proof {
        assert(s@.subrange(0, s@.len() as int) =~= s@);
    }
    Some(out)
}

/// The nibble value of one character, or `None` when it is not a hex digit.
fn hex_val_exec(c: char) -> (r: Option<u8>)
    ensures
        r is Some <==> is_hex_char(c),
        r is Some ==> r->Some_0 == hex_char_val(c),
{
    let n = c as u32;
    if 48 <= n && n <= 57 {
        Some((n - 48) as u8)
    } else if 97 <= n && n <= 102 {
        Some((n - 87) as u8)
    } else if 65 <= n && n <= 70 {
        Some((n - 55) as u8)
    } else {
        None
    }
}

/// Hex decoding inverts hex encoding.
pub proof fn lemma_hex_round_trip(bs: Seq<u8>)
    ensures
        hex_of_bytes(bs).len() % 2 == 0,
        all_hex_chars(hex_of_bytes(bs)),
        hex_bytes_of(hex_of_bytes(bs)) =~= bs,
{
    let h = hex_of_bytes(bs);
    assert forall|i: int| 0 <= i < h.len() implies is_hex_char(#[trigger] h[i]) by {
        let b = bs[i / 2];
        assert(b / 16 < 16 && b % 16 < 16);
    }
    assert forall|i: int| 0 <= i < bs.len() implies hex_bytes_of(h)[i] == bs[i] by {
        let b = bs[i];
        assert(h[2 * i] == hex_digit_char(b / 16));
        assert(h[2 * i + 1] == hex_digit_char(b % 16));
        assert(hex_char_val(hex_digit_char(b / 16)) == b / 16);
        assert(hex_char_val(hex_digit_char(b % 16)) == b % 16);
    }
}

} // verus!
