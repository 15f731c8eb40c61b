//! The laws the library keeps, stated over the same spec functions its
//! contracts use and proved once and for all: the chain invariants, hash
//! determinism, the difficulty bounds, stale-candidate rejection, and
//! mempool de-duplication.

use vstd::prelude::*;
use crate::chain::{block_hash_hex, meets_difficulty, genesis_block_model, dyn_difficulty,
    valid_block_ok, chain_linked_ok, block_txs_ok, MIN_DIFFICULTY, MAX_DIFFICULTY};
use crate::mempool::{has_signature, without_signatures};
use crate::model::{TransactionModel, BlockModel, BlockchainModel};
use crate::node::submitblock_accepts;

verus! {

/// A digest with its first `d2` hex digits zero also has its first
/// `d1 <= d2` digits zero: the difficulty predicate is monotone.
pub proof fn lemma_meets_difficulty_monotone(h: Seq<char>, d1: int, d2: int)
    requires
        d1 <= d2,
        meets_difficulty(h, d2),
    ensures
        meets_difficulty(h, d1),
{
}

/// The standing invariants of a well-formed chain: it starts with the
/// fixed genesis block; every later block continues the index sequence,
/// names its predecessor's digest and records its own recomputed digest;
/// every transaction of a non-genesis block either is coinbase issuance
/// or carries a valid signature; and every non-genesis block meets the
/// difficulty it records. The genesis block itself stands exempt from the
/// signature clause: its unsigned placeholder record names the sender
/// `"genesis"`, which is no coinbase sentinel and no hex key, so no
/// signature of it can verify.
pub open spec fn chain_extends_genesis_wf(c: BlockchainModel) -> bool {
    &&& c.chain.len() >= 1
    &&& c.chain[0] == genesis_block_model()
    &&& forall|i: int|
        1 <= i < c.chain.len() ==> (#[trigger] c.chain[i]).index == c.chain[i - 1].index + 1
    &&& chain_linked_ok(c.chain)
    &&& forall|i: int| 1 <= i < c.chain.len() ==> block_txs_ok((#[trigger] c.chain[i]).transactions)
    &&& forall|i: int|
        1 <= i < c.chain.len() ==> meets_difficulty(
            (#[trigger] c.chain[i]).hash,
            c.chain[i].difficulty,
        )
}

/// What loading verifies covers the standing invariants up to the
/// difficulty clause: a chain passing the load-time integrity check
/// starts with the genesis constants, continues the index sequence, links
/// every block to its predecessor's recomputed digest, and carries valid
/// signatures on every later block's non-coinbase transactions.
pub proof fn lemma_load_integrity_covers_invariants(c: BlockchainModel)
    requires
        crate::chain::load_integrity_ok(c),
    ensures
        c.chain.len() >= 1,
        c.chain[0] == genesis_block_model(),
        chain_linked_ok(c.chain),
        forall|i: int|
            1 <= i < c.chain.len() ==> (#[trigger] c.chain[i]).index == c.chain[i - 1].index + 1,
        forall|i: int| 1 <= i < c.chain.len() ==> block_txs_ok((#[trigger] c.chain[i]).transactions),
{
}

/// A chain holding the genesis block alone is well-formed.
pub proof fn lemma_genesis_chain_wf(c: BlockchainModel)
    requires
        c.chain =~= seq![genesis_block_model()],
    ensures
        chain_extends_genesis_wf(c),
{
}

/// Appending a block that validation accepts preserves the chain
/// invariants, provided the recorded difficulty does not exceed the
/// network difficulty the proof of work was checked against. A block
/// recording a higher difficulty than it was validated at is the one
/// input this preservation cannot cover: its digest need not meet its own
/// recorded difficulty.
pub proof fn lemma_add_block_preserves_wf(pre: BlockchainModel, post: BlockchainModel, b: BlockModel, d: int)
    requires
        chain_extends_genesis_wf(pre),
        valid_block_ok(pre, b, d, false),
        b.difficulty <= d,
        post.chain =~= pre.chain.push(b),
    ensures
        chain_extends_genesis_wf(post),
        b.prev_hash == pre.chain[pre.chain.len() - 1].hash,
        b.hash == block_hash_hex(b),
        b.index == pre.chain[pre.chain.len() - 1].index + 1,
        block_txs_ok(b.transactions),
        meets_difficulty(b.hash, b.difficulty),
    decreases pre.chain.len(),
{
    lemma_meets_difficulty_monotone(b.hash, b.difficulty, d);
    let n = post.chain.len();
    assert(post.chain[n - 1] == b);
    assert(forall|i: int| 0 <= i < pre.chain.len() ==> post.chain[i] == pre.chain[i]);
    assert(chain_linked_ok(post.chain)) by {
        assert(forall|i: int|
            1 <= i < n - 1 ==> (#[trigger] post.chain[i]).prev_hash == post.chain[i - 1].hash
                && post.chain[i].hash == block_hash_hex(post.chain[i]));
    }
}

/// In a well-formed chain every block past the first links to its
/// predecessor, recomputes its digest, and continues the index sequence.
pub proof fn lemma_chain_wf_links(c: BlockchainModel, i: int)
    requires
        chain_extends_genesis_wf(c),
        1 <= i < c.chain.len(),
    ensures
        c.chain[i].prev_hash == c.chain[i - 1].hash,
        c.chain[i].hash == block_hash_hex(c.chain[i]),
        c.chain[i].index == c.chain[i - 1].index + 1,
        block_txs_ok(c.chain[i].transactions),
        meets_difficulty(c.chain[i].hash, c.chain[i].difficulty),
{
}

/// The digest of a block is a function of its header: equal headers give
/// equal digests, in every run and on every machine, because
/// `block_hash_hex` is a mathematical function of the header fields
/// alone.
pub proof fn lemma_hash_deterministic(b1: BlockModel, b2: BlockModel)
    requires
        b1 == b2,
    ensures
        block_hash_hex(b1) == block_hash_hex(b2),
{
}

/// The difficulty oracle clamps at the bounds: whatever the chain looks
/// like, the next difficulty stands between one and seven.
pub proof fn lemma_difficulty_clamped(c: BlockchainModel)
    ensures
        MIN_DIFFICULTY as int <= dyn_difficulty(c) <= MAX_DIFFICULTY as int,
{
}

/// At difficulty one the predicate asks exactly that the first hex digit
/// of a non-empty digest be '0'.
pub proof fn lemma_difficulty_one_first_digit(h: Seq<char>)
    requires
        h.len() >= 1,
    ensures
        meets_difficulty(h, 1) <==> h[0] == '0',
{
    assert(meets_difficulty(h, 1) ==> h[0] == '0');
}

/// A candidate whose index does not exceed the tip's is never accepted by
/// `submitblock`, however valid it is otherwise.
pub proof fn lemma_stale_index_rejected(c: BlockchainModel, b: BlockModel)
    requires
        c.chain.len() > 0,
        b.index <= c.chain[c.chain.len() - 1].index,
    ensures
        !submitblock_accepts(c, b),
{
}

/// How many pending transactions carry a signature.
pub open spec fn count_sig(ts: Seq<TransactionModel>, sig: Seq<char>) -> int
    decreases ts.len(),
{
    if ts.len() == 0 {
        0
    } else {
        count_sig(ts.drop_last(), sig) + (if ts.last().signature == sig {
            1int
        } else {
            0int
        })
    }
}

/// Submitting a transaction keeps the pool de-duplicated: a pool holding
/// the signature at most once still holds it at most once afterwards,
/// whether the submission was admitted, dropped as a duplicate, or
/// rejected.
pub proof fn lemma_submit_keeps_unique(pool: Seq<TransactionModel>, t: TransactionModel)
    requires
        count_sig(pool, t.signature) <= 1,
    ensures
        !has_signature(pool, t.signature) ==> count_sig(pool.push(t), t.signature) == count_sig(
            pool,
            t.signature,
        ) + 1 <= 1,
        has_signature(pool, t.signature) ==> count_sig(pool, t.signature) <= 1,
    decreases pool.len(),
{
    assert(pool.push(t).drop_last() =~= pool);
    if !has_signature(pool, t.signature) {
        lemma_absent_count_zero(pool, t.signature);
    }
}

/// A signature nobody in the pool carries is counted zero times.
pub proof fn lemma_absent_count_zero(ts: Seq<TransactionModel>, sig: Seq<char>)
    requires
        !has_signature(ts, sig),
    ensures
        count_sig(ts, sig) == 0,
    decreases ts.len(),
{
    if ts.len() > 0 {
        assert(!has_signature(ts.drop_last(), sig)) by {
            if has_signature(ts.drop_last(), sig) {
                let i = choose|i: int|
                    0 <= i < ts.drop_last().len() && (#[trigger] ts.drop_last()[i]).signature
                        == sig;
                assert(ts[i].signature == sig);
            }
        }
        lemma_absent_count_zero(ts.drop_last(), sig);
        assert(ts.last().signature != sig) by {
            assert(!(exists|i: int| 0 <= i < ts.len() && (#[trigger] ts[i]).signature == sig));
            assert(ts[ts.len() - 1].signature == sig ==> has_signature(ts, sig));
        }
    }
}

/// Mempool idempotence, second half: when a block carrying a signature is
/// accepted, no pending transaction with that signature survives. With
/// the first half — insertion never creates a second copy — a transaction
/// submitted twice leaves exactly one pending copy, and none once a block
/// containing it is appended.
pub proof fn lemma_removal_clears_signature(
    pool: Seq<TransactionModel>,
    bts: Seq<TransactionModel>,
    sig: Seq<char>,
)
    requires
        has_signature(bts, sig),
    ensures
        count_sig(without_signatures(pool, bts), sig) == 0,
        !has_signature(without_signatures(pool, bts), sig),
    decreases pool.len(),
{
    if pool.len() == 0 {
        assert(without_signatures(pool, bts) =~= Seq::<TransactionModel>::empty());
    } else {
        lemma_removal_clears_signature(pool.drop_last(), bts, sig);
        let w = without_signatures(pool, bts);
        let wp = without_signatures(pool.drop_last(), bts);
        if has_signature(bts, pool.last().signature) {
            assert(w =~= wp);
        } else {
            assert(w =~= wp.push(pool.last()));
            assert(pool.last().signature != sig);
            assert(w.drop_last() =~= wp);
            if has_signature(w, sig) {
                let i = choose|i: int| 0 <= i < w.len() && (#[trigger] w[i]).signature == sig;
                if i < wp.len() {
                    assert(wp[i].signature == sig);
                    assert(has_signature(wp, sig));
                    lemma_absent_count_zero(wp, sig);
                }
            }
        }
    }
}

} // verus!
