//! The memory-hard proof-of-work hash: a scratchpad of 64-bit words is
//! filled from a SHA3-256 seed, mixed with data-dependent reads and writes,
//! and digested again. The digest is a pure function of the preimage bytes,
//! the scratchpad size and the iteration count.

use vstd::prelude::*;
use vstd::wrapping::u64_specs;
use sha3::Digest;

verus! {

/// Default scratchpad size in bytes (2 MiB).
pub const SCRATCHPAD_SIZE: usize = 2097152;

/// Default scratchpad size in 64-bit words.
pub const SCRATCHPAD_WORDS: usize = 262144;

/// Default number of mixing iterations.
pub const DEFAULT_ITERATIONS: usize = 1024;

/// Multiplier of the linear congruential generator that fills the scratchpad.
pub const LCG_K: u64 = 6364136223846793005;

/// Upper bound on scratchpad words and iterations, so that every index
/// computation fits comfortably in the machine integers.
pub const POW_SIZE_LIMIT: usize = 0x1000_0000;

/// The SHA3-256 digest of a byte string, as the `sha3` crate computes it.
pub uninterp spec fn sha3_256_of(bytes: Seq<u8>) -> Seq<u8>;

/// Relies on `sha3::Sha3_256::digest`: the 32-byte digest depends on the
/// input bytes alone.
#[verifier::external_body]
pub fn sha3_256(input: &Vec<u8>) -> (r: Vec<u8>)
    ensures
        r@ == sha3_256_of(input@),
        r@.len() == 32,
{
    sha3::Sha3_256::digest(input.as_slice()).to_vec()
}

/// Rotate a 64-bit word left by `s` bits.
pub open spec fn rotl64(x: u64, s: u64) -> u64
    recommends
        s < 64,
{
    if s == 0 {
        x
    } else {
        (x << s) | (x >> ((64 - s) as u64))
    }
}

/// Rotate a 64-bit word right by `s` bits.
pub open spec fn rotr64(x: u64, s: u64) -> u64
    recommends
        s < 64,
{
    if s == 0 {
        x
    } else {
        (x >> s) | (x << ((64 - s) as u64))
    }
}

fn rotl64_exec(x: u64, s: u64) -> (r: u64)
    requires
        s < 64,
    ensures
        r == rotl64(x, s),
{
    if s == 0 {
        x
    } else {
        (x << s) | (x >> (64 - s))
    }
}

fn rotr64_exec(x: u64, s: u64) -> (r: u64)
    requires
        s < 64,
    ensures
        r == rotr64(x, s),
{
    if s == 0 {
        x
    } else {
        (x >> s) | (x << (64 - s))
    }
}

/// The little-endian 64-bit word at offset `off` of a byte string.
pub open spec fn u64_le_at(s: Seq<u8>, off: int) -> u64
    recommends
        0 <= off,
        off + 8 <= s.len(),
{
    (s[off] as u64) | ((s[off + 1] as u64) << 8) | ((s[off + 2] as u64) << 16) | ((s[off
        + 3] as u64) << 24) | ((s[off + 4] as u64) << 32) | ((s[off + 5] as u64) << 40) | ((s[off
        + 6] as u64) << 48) | ((s[off + 7] as u64) << 56)
}

fn u64_le_at_exec(s: &Vec<u8>, off: usize) -> (r: u64)
    requires
        off <= 24,
        s@.len() == 32,
    ensures
        r == u64_le_at(s@, off as int),
{
    (s[off] as u64) | ((s[off + 1] as u64) << 8) | ((s[off + 2] as u64) << 16) | ((s[off
        + 3] as u64) << 24) | ((s[off + 4] as u64) << 32) | ((s[off + 5] as u64) << 40) | ((s[off
        + 6] as u64) << 48) | ((s[off + 7] as u64) << 56)
}

/// The little-endian bytes of a 64-bit word.
pub open spec fn le_bytes_of_u64(x: u64) -> Seq<u8> {
    Seq::new(8, |i: int| ((x >> (8 * i) as u64) & 0xff) as u8)
}

fn push_le_bytes_u64(out: &mut Vec<u8>, x: u64)
    ensures
        final(out)@ =~= old(out)@ + le_bytes_of_u64(x),
{
    let mut i: u64 = 0;
    while i < 8
        invariant
            i <= 8,
            out@ =~= old(out)@ + le_bytes_of_u64(x).subrange(0, i as int),
        decreases 8 - i,
    {
        out.push(((x >> (8 * i)) & 0xff) as u8);
        i = i + 1;
        proof {
            assert(out@ =~= old(out)@ + le_bytes_of_u64(x).subrange(0, i as int));
        }
    }
    proof {
        assert(le_bytes_of_u64(x).subrange(0, 8) =~= le_bytes_of_u64(x));
    }
}

/// The state of the linear congruential generator after `j` steps.
pub open spec fn lcg_iter(r0: u64, j: nat) -> u64
    decreases j,
{
    if j == 0 {
        r0
    } else {
        u64_specs::wrapping_add(u64_specs::wrapping_mul(lcg_iter(r0, (j - 1) as nat), LCG_K), 1)
    }
}

/// The word written at index `j` when the scratchpad is filled.
pub open spec fn scratch_word(r0: u64, j: nat) -> u64 {
    let r = lcg_iter(r0, j + 1);
    (r >> 1) ^ (r << 33)
}

/// The freshly filled scratchpad.
pub open spec fn scratch_init(r0: u64, words: nat) -> Seq<u64> {
    Seq::new(words, |j: int| scratch_word(r0, j as nat))
}

/// The mixing registers and the scratchpad between iterations.
#[verifier::ext_equal]
pub ghost struct MixState {
    pub a: u64,
    pub b: u64,
    pub c: u64,
    pub sp: Seq<u64>,
}

/// One mixing iteration: two data-dependent reads, two locality reads, the
/// register updates, one write-back, and an occasional injection of a
/// preimage byte.
pub open spec fn mix_step(st: MixState, pre: Seq<u8>, k: nat) -> MixState
    recommends
        st.sp.len() >= 128,
        pre.len() >= 1,
{
    let words = st.sp.len() as int;
    let m1 = st.sp[u64_specs::wrapping_mul(u64_specs::wrapping_add(st.a, st.b), st.c) as int
        % words];
    let m2 = st.sp[((8 * k + (st.a as int % 1024)) % (8 * words)) / 8];
    let l1 = st.sp[(st.a as int % 2048) % words];
    let l2 = st.sp[(st.b as int % 32768) % words];
    let a1 = u64_specs::wrapping_add(u64_specs::wrapping_mul(st.a, m1), l1);
    let b1 = u64_specs::wrapping_sub(st.b ^ m2, l2);
    let c1 = u64_specs::wrapping_add(rotl64(st.c, m1 % 64), a1 ^ b1);
    let a2 = a1 ^ rotr64(a1, 17);
    let b2 = b1 ^ rotr64(b1, 23);
    let c2 = c1 ^ rotr64(c1, 29);
    let widx = (a2 ^ b2 ^ c2) as int % words;
    let wval = u64_specs::wrapping_add(a2, u64_specs::wrapping_mul(b2, c2));
    let sp1 = st.sp.update(widx, wval);
    if k % 128 == 0 {
        let p = pre[k as int % pre.len() as int] as u64;
        MixState { a: a2 ^ p, b: b2 ^ rotl64(p, 8), c: c2 ^ rotl64(p, 16), sp: sp1 }
    } else {
        MixState { a: a2, b: b2, c: c2, sp: sp1 }
    }
}

/// The mixing state after `k` iterations.
pub open spec fn mix_iter(st0: MixState, pre: Seq<u8>, k: nat) -> MixState
    decreases k,
{
    if k == 0 {
        st0
    } else {
        mix_step(mix_iter(st0, pre, (k - 1) as nat), pre, (k - 1) as nat)
    }
}

/// The byte at byte offset `o` of the scratchpad, laid out little-endian.
pub open spec fn scratch_byte_at(sp: Seq<u64>, o: int) -> u8
    recommends
        0 <= o < 8 * sp.len(),
{
    ((sp[o / 8] >> ((8 * (o % 8)) as u64)) & 0xff) as u8
}

/// The input of the final digest: the three registers little-endian, the
/// preimage, and 32 data-dependent scratchpad bytes.
pub open spec fn pow_final_input(st: MixState, pre: Seq<u8>) -> Seq<u8> {
    le_bytes_of_u64(st.a) + le_bytes_of_u64(st.b) + le_bytes_of_u64(st.c) + pre + Seq::new(
        32,
        |i: int| scratch_byte_at(st.sp, u64_specs::wrapping_add(st.a, i as u64) as int % (8 * (
        st.sp.len() as int))),
    )
}

/// The starting mix state derived from the seed digest of the preimage.
pub open spec fn pow_start_state(pre: Seq<u8>, words: nat) -> MixState {
    let seed = sha3_256_of(pre);
    MixState {
        a: u64_le_at(seed, 8),
        b: u64_le_at(seed, 16),
        c: u64_le_at(seed, 24),
        sp: scratch_init(u64_le_at(seed, 0), words),
    }
}

/// The full proof-of-work digest of a preimage, for a scratchpad of
/// `words` 64-bit words and `iters` mixing iterations.
#[verifier::opaque]
pub open spec fn pow_digest(pre: Seq<u8>, words: nat, iters: nat) -> Seq<u8> {
    let st = mix_iter(pow_start_state(pre, words), pre, iters);
    sha3_256_of(pow_final_input(st, pre))
}

/// Compute the proof-of-work digest of `pre`, reusing `scratch` as the
/// scratchpad. The result does not depend on what `scratch` held before the
/// call: its contents are fully overwritten.
pub fn pow_hash(pre: &Vec<u8>, iterations: usize, scratch: &mut Vec<u64>) -> (r: Vec<u8>)
    requires
        1 <= pre@.len(),
        128 <= old(scratch)@.len() <= POW_SIZE_LIMIT,
        1 <= iterations <= POW_SIZE_LIMIT,
    ensures
        r@ == pow_digest(pre@, old(scratch)@.len() as nat, iterations as nat),
        r@.len() == 32,
        final(scratch)@.len() == old(scratch)@.len(),
{
    proof {
        reveal(pow_digest);
    }
    let words: usize = scratch.len();
    let seed = sha3_256(pre);
    let r0 = u64_le_at_exec(&seed, 0);
    let mut a = u64_le_at_exec(&seed, 8);
    let mut b = u64_le_at_exec(&seed, 16);
    let mut c = u64_le_at_exec(&seed, 24);

    // Fill the scratchpad from the generator.
    let mut rng: u64 = r0;
    let mut j: usize = 0;
    while j < words
        invariant
            words == scratch@.len(),
            j <= words,
            rng == lcg_iter(r0, j as nat),
            forall|jj: int| 0 <= jj < j ==> scratch@[jj] == scratch_word(r0, jj as nat),
        decreases words - j,
    {
        rng = rng.wrapping_mul(LCG_K).wrapping_add(1);
        scratch[j] = (rng >> 1) ^ (rng << 33);
        j = j + 1;
    }
    proof {
        assert(scratch@ =~= scratch_init(r0, words as nat));
    }

    // The mixing loop.
    let ghost st0 = pow_start_state(pre@, words as nat);
    let mut k: usize = 0;
    while k < iterations
        invariant
            1 <= pre@.len(),
            128 <= words <= POW_SIZE_LIMIT,
            iterations <= POW_SIZE_LIMIT,
            words == scratch@.len(),
            k <= iterations,
            st0 == pow_start_state(pre@, words as nat),
            mix_iter(st0, pre@, k as nat) == (MixState { a, b, c, sp: scratch@ }),
        decreases iterations - k,
    {
        let m1 = scratch[((a.wrapping_add(b).wrapping_mul(c)) % (words as u64)) as usize];
        let m2 = scratch[((((8 * (k as u64)) + (a % 1024)) % (8 * (words as u64))) / 8) as usize];
        let l1 = scratch[((a % 2048) % (words as u64)) as usize];
        let l2 = scratch[((b % 32768) % (words as u64)) as usize];
        a = a.wrapping_mul(m1).wrapping_add(l1);
        b = (b ^ m2).wrapping_sub(l2);
        c = rotl64_exec(c, m1 % 64).wrapping_add(a ^ b);
        a = a ^ rotr64_exec(a, 17);
        b = b ^ rotr64_exec(b, 23);
        c = c ^ rotr64_exec(c, 29);
        let widx = ((a ^ b ^ c) % (words as u64)) as usize;
        scratch[widx] = a.wrapping_add(b.wrapping_mul(c));
        if k % 128 == 0 {
            let p = pre[k % pre.len()] as u64;
            a = a ^ p;
            b = b ^ rotl64_exec(p, 8);
            c = c ^ rotl64_exec(p, 16);
        }
        k = k + 1;
        proof {
            assert(mix_iter(st0, pre@, k as nat) == mix_step(
                mix_iter(st0, pre@, (k - 1) as nat),
                pre@,
                (k - 1) as nat,
            ));
            assert(mix_iter(st0, pre@, k as nat) == (MixState { a, b, c, sp: scratch@ }));
        }
    }

    // The final digest input.
    let mut fin: Vec<u8> = Vec::new();
    push_le_bytes_u64(&mut fin, a);
    push_le_bytes_u64(&mut fin, b);
    push_le_bytes_u64(&mut fin, c);
    let mut i: usize = 0;
    while i < pre.len()
        invariant
            fin@ =~= le_bytes_of_u64(a) + le_bytes_of_u64(b) + le_bytes_of_u64(c) + pre@.subrange(
                0,
                i as int,
            ),
            i <= pre@.len(),
        decreases pre@.len() - i,
    {
        fin.push(pre[i]);
        i = i + 1;
        proof {
            assert(fin@ =~= le_bytes_of_u64(a) + le_bytes_of_u64(b) + le_bytes_of_u64(c)
                + pre@.subrange(0, i as int));
        }
    }
    proof {
        assert(pre@.subrange(0, pre@.len() as int) =~= pre@);
    }
    let ghost st = MixState { a, b, c, sp: scratch@ };
    let ghost tail = Seq::new(
        32,
        |i: int| scratch_byte_at(st.sp, u64_specs::wrapping_add(st.a, i as u64) as int % (8 * (
        st.sp.len() as int))),
    );
    let mut i: usize = 0;
    while i < 32
        invariant
            words == scratch@.len(),
            128 <= words <= POW_SIZE_LIMIT,
            st == (MixState { a, b, c, sp: scratch@ }),
            tail == Seq::new(
                32,
                |i: int| scratch_byte_at(st.sp, u64_specs::wrapping_add(st.a, i as u64) as int % (8
                    * (st.sp.len() as int))),
            ),
            i <= 32,
            fin@ =~= le_bytes_of_u64(a) + le_bytes_of_u64(b) + le_bytes_of_u64(c) + pre@
                + tail.subrange(0, i as int),
        decreases 32 - i,
    {
        let o = (a.wrapping_add(i as u64) % (8 * (words as u64))) as usize;
        let w = scratch[o / 8];
        fin.push(((w >> ((8 * (o as u64 % 8)) as u64)) & 0xff) as u8);
        i = i + 1;
        proof {
            assert(fin@ =~= le_bytes_of_u64(a) + le_bytes_of_u64(b) + le_bytes_of_u64(c) + pre@
                + tail.subrange(0, i as int));
        }
    }
    proof {
        assert(tail.subrange(0, 32) =~= tail);
        assert(fin@ =~= pow_final_input(st, pre@));
    }
    sha3_256(&fin)
}

} // verus!
