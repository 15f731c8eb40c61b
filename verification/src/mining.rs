//! Nonce search over a block template. A worker builds a template on the
//! current tip, races nonces through the proof-of-work hash, and hands back
//! the first block whose digest meets the difficulty. The search is bounded
//! so that a caller can interleave it with cancellation checks and attempt
//! flushing; the contract accounts for every nonce tried.

use vstd::prelude::*;
use vstd::string::*;
use vstd::utf8::encode_utf8;
use crate::chain::{block_hash_hex, meets_difficulty, hash_meets_difficulty, make_scratch};
use crate::model::{Transaction, Block, Blockchain, BlockModel, TransactionModel, tx_views};
use crate::sig::sign_transaction;

verus! {

/// The template a worker hashes: the next index over `prev`, the chosen
/// timestamp and transactions, the tip's digest as predecessor, and an
/// empty digest field.
pub open spec fn mined_header(
    prev: BlockModel,
    txs: Seq<TransactionModel>,
    d: int,
    time: int,
    nonce: int,
) -> BlockModel {
    BlockModel {
        index: prev.index + 1,
        timestamp: time,
        transactions: txs,
        prev_hash: prev.hash,
        hash: Seq::empty(),
        nonce: nonce,
        difficulty: d,
    }
}

/// The digest of the template at a given nonce.
pub open spec fn template_hash(
    prev: BlockModel,
    txs: Seq<TransactionModel>,
    d: int,
    time: int,
    nonce: int,
) -> Seq<char> {
    block_hash_hex(mined_header(prev, txs, d, time, nonce))
}

/// The block a successful search returns: the template with its digest
/// recorded.
pub open spec fn mined_block(
    prev: BlockModel,
    txs: Seq<TransactionModel>,
    d: int,
    time: int,
    nonce: int,
) -> BlockModel {
    BlockModel {
        hash: template_hash(prev, txs, d, time, nonce),
        ..mined_header(prev, txs, d, time, nonce)
    }
}

/// The digest reads only the header preimage: two blocks that agree on
/// `index`, `timestamp`, `transactions`, `prev_hash` and `nonce` have the
/// same digest, whatever their `hash` and `difficulty` fields hold.
#[verifier::rlimit(100)]
#[verifier::spinoff_prover]
pub proof fn lemma_hash_ignores_hash_and_difficulty(b1: BlockModel, b2: BlockModel)
    requires
        b1.index == b2.index,
        b1.timestamp == b2.timestamp,
        b1.transactions == b2.transactions,
        b1.prev_hash == b2.prev_hash,
        b1.nonce == b2.nonce,
    ensures
        crate::jsonenc::preimage_enc(b1) == crate::jsonenc::preimage_enc(b2),
        block_hash_hex(b1) == block_hash_hex(b2),
{
    reveal(crate::jsonenc::preimage_enc);
    assert(crate::jsonenc::preimage_enc(b1) == crate::jsonenc::preimage_enc(b2));
}

/// Search nonces `start_nonce, start_nonce + 1, ...` for at most
/// `max_attempts` tries, on the template built from `prev_block`, the
/// given transactions, difficulty and timestamp. Returns the first block
/// whose digest meets the difficulty, or `None` when the whole budget is
/// exhausted; `attempts` is advanced by exactly the number of digests
/// computed. A caller that polls a cancellation epoch between calls gets
/// a worker loop that abandons stale templates promptly.
#[verifier::rlimit(100)]
#[verifier::loop_isolation(false)]
pub fn mine_block_with_cancel(
    prev_block: &Block,
    transactions: Vec<Transaction>,
    difficulty: u32,
    timestamp: u64,
    start_nonce: u32,
    max_attempts: u32,
    attempts: &mut u64,
) -> (r: Option<Block>)
    requires
        prev_block@.index < u64::MAX,
        start_nonce + max_attempts <= u32::MAX,
        *old(attempts) + max_attempts <= u64::MAX,
    ensures
        match r {
            Some(b) => {
                &&& start_nonce <= b@.nonce < start_nonce + max_attempts
                &&& b@ == mined_block(
                    prev_block@,
                    tx_views(transactions@),
                    difficulty as int,
                    timestamp as int,
                    b@.nonce,
                )
                &&& meets_difficulty(b@.hash, difficulty as int)
                &&& b@.hash.len() == 64
                &&& forall|n: int|
                    start_nonce <= n < b@.nonce ==> !meets_difficulty(
                        template_hash(
                            prev_block@,
                            tx_views(transactions@),
                            difficulty as int,
                            timestamp as int,
                            n,
                        ),
                        difficulty as int,
                    )
                &&& *final(attempts) == *old(attempts) + (b@.nonce - start_nonce) + 1
            },
            None => {
                &&& forall|n: int|
                    start_nonce <= n < start_nonce + max_attempts ==> !meets_difficulty(
                        template_hash(
                            prev_block@,
                            tx_views(transactions@),
                            difficulty as int,
                            timestamp as int,
                            n,
                        ),
                        difficulty as int,
                    )
                &&& *final(attempts) == *old(attempts) + max_attempts
            },
        },
{
    let ghost txv = tx_views(transactions@);
    let mut block = Block {
        index: prev_block.index + 1,
        timestamp,
        transactions,
        prev_hash: prev_block.hash.clone(),
        hash: String::new(),
        nonce: start_nonce,
        difficulty,
    };
    let mut scratch = make_scratch();
    let mut k: u32 = 0;
    while k < max_attempts
        invariant
            prev_block@.index < u64::MAX,
            start_nonce + max_attempts <= u32::MAX,
            *old(attempts) + max_attempts <= u64::MAX,
            k <= max_attempts,
            scratch@.len() == crate::pow::SCRATCHPAD_WORDS,
            block@.index == prev_block@.index + 1,
            block@.timestamp == timestamp as int,
            block@.transactions == txv,
            block@.prev_hash == prev_block@.hash,
            block@.hash == Seq::<char>::empty(),
            block@.difficulty == difficulty as int,
            *attempts == *old(attempts) + k,
            forall|n: int|
                start_nonce <= n < start_nonce + k ==> !meets_difficulty(
                    template_hash(prev_block@, txv, difficulty as int, timestamp as int, n),
                    difficulty as int,
                ),
        decreases max_attempts - k,
    {
        block.nonce = start_nonce + k;
        proof {
            assert(block@ =~= mined_header(
                prev_block@,
                txv,
                difficulty as int,
                timestamp as int,
                start_nonce + k,
            ));
        }
        let h = Blockchain::calculate_hash_with(&block, &mut scratch);
        proof {
            assert(h@ == template_hash(
                prev_block@,
                txv,
                difficulty as int,
                timestamp as int,
                (start_nonce + k) as int,
            ));
        }
        *attempts = *attempts + 1;
        if hash_meets_difficulty(h.as_str(), difficulty) {
            block.hash = h;
            proof {
                assert(block@ =~= mined_block(
                    prev_block@,
                    txv,
                    difficulty as int,
                    timestamp as int,
                    (start_nonce + k) as int,
                ));
            }
            return Some(block);
        }
        k = k + 1;
    }
    None
}

/// Search the whole nonce space from zero, blocking until a block is found
/// or every nonce below `u32::MAX` has been tried.
pub fn mine_block(
    prev_block: &Block,
    transactions: Vec<Transaction>,
    difficulty: u32,
    timestamp: u64,
    attempts: &mut u64,
) -> (r: Option<Block>)
    requires
        prev_block@.index < u64::MAX,
        *old(attempts) + u32::MAX <= u64::MAX,
    ensures
        match r {
            Some(b) => {
                &&& b@ == mined_block(
                    prev_block@,
                    tx_views(transactions@),
                    difficulty as int,
                    timestamp as int,
                    b@.nonce,
                )
                &&& meets_difficulty(b@.hash, difficulty as int)
                &&& b@.hash.len() == 64
            },
            None => forall|n: int|
                0 <= n < u32::MAX ==> !meets_difficulty(
                    template_hash(
                        prev_block@,
                        tx_views(transactions@),
                        difficulty as int,
                        timestamp as int,
                        n,
                    ),
                    difficulty as int,
                ),
        },
{
    mine_block_with_cancel(prev_block, transactions, difficulty, timestamp, 0, u32::MAX, attempts)
}

/// Build the coinbase record a worker puts at position zero of its
/// template: the block reward issued to the worker's own wallet, signed
/// with its key on a best-effort basis. A failed signing leaves the
/// record unsigned, which validation accepts for coinbase issuance.
pub fn build_coinbase(pub_key: &str, address: &str, reward: i64, priv_key_hex: &str) -> (r:
    Transaction)
    ensures
        r@.from == "coinbase"@,
        r@.pub_key == pub_key@,
        r@.to == address@,
        r@.amount == reward as int,
{
    let mut tx = Transaction {
        from: "coinbase".to_owned(),
        pub_key: pub_key.to_owned(),
        to: address.to_owned(),
        amount: reward,
        signature: String::new(),
    };
    let _unused = sign_transaction(&mut tx, priv_key_hex);
    tx
}

/// The difficulty a pool worker races at: two below the network
/// difficulty, never under the minimum.
pub open spec fn share_difficulty_spec(d: int) -> int {
    if d - 2 >= 1 {
        d - 2
    } else {
        1
    }
}

/// Lower the network difficulty for pool shares: `max(d - 2, 1)`.
pub fn share_difficulty(d: u32) -> (r: u32)
    ensures
        r == share_difficulty_spec(d as int),
{
    if d >= 3 {
        d - 2
    } else {
        1
    }
}

/// Whether a found candidate is already stale: the submitter's check
/// before spending a round trip on it. With no tip recorded yet nothing
/// is known to be newer, so the candidate goes out.
pub fn candidate_is_stale(latest: Option<&Block>, candidate: &Block) -> (r: bool)
    ensures
        r == match latest {
            Some(l) => l@.hash != candidate@.prev_hash,
            None => false,
        },
{
    match latest {
        Some(l) => !crate::strutil::str_eq(l.hash.as_str(), candidate.prev_hash.as_str()),
        None => false,
    }
}

/// Splice the freshly signed coinbase in front of the mempool snapshot:
/// position zero of a mined block's transactions is the reward.
#[verifier::loop_isolation(false)]
pub fn splice_template_txs(coinbase: Transaction, pending: &Vec<Transaction>) -> (r: Vec<
    Transaction,
>)
    ensures
        tx_views(r@) =~= seq![coinbase@] + tx_views(pending@),
{
    let ghost cb = coinbase@;
    let mut out: Vec<Transaction> = Vec::new();
    out.push(coinbase);
    let mut i: usize = 0;
    while i < pending.len()
        invariant
            i <= pending@.len(),
            out@.len() == i + 1,
            forall|j: int| 0 <= j < i ==> (#[trigger] out@[j + 1])@ == pending@[j]@,
            out@[0]@ == cb,
        decreases pending@.len() - i,
    {
        out.push(pending[i].clone());
        i = i + 1;
    }
    proof {
        assert forall|j: int| 0 <= j < tx_views(out@).len() implies #[trigger] tx_views(out@)[j]
            == (seq![cb] + tx_views(pending@))[j] by {
            if j > 0 {
                assert(out@[(j - 1) + 1]@ == pending@[j - 1]@);
            }
        }
        assert(tx_views(out@) =~= seq![cb] + tx_views(pending@));
    }
    out
}

/// Build the block template a worker races nonces on, starting at nonce
/// zero.
pub fn build_template(
    prev_block: &Block,
    transactions: Vec<Transaction>,
    difficulty: u32,
    timestamp: u64,
) -> (r: Block)
    requires
        prev_block@.index < u64::MAX,
    ensures
        r@ == mined_header(
            prev_block@,
            tx_views(transactions@),
            difficulty as int,
            timestamp as int,
            0,
        ),
{
    let ghost txv = tx_views(transactions@);
    let r = Block {
        index: prev_block.index + 1,
        timestamp,
        transactions,
        prev_hash: prev_block.hash.clone(),
        hash: String::new(),
        nonce: 0,
        difficulty,
    };
    proof {
        assert(r@ =~= mined_header(prev_block@, txv, difficulty as int, timestamp as int, 0));
    }
    r
}

/// Try the template's current nonce once: hash it against the given
/// difficulty; on success record the digest, otherwise step to the next
/// nonce. One call is one attempt, so a caller that checks its
/// cancellation epoch between calls observes it on every nonce increment.
pub fn advance_template(block: &mut Block, difficulty: u32, scratch: &mut Vec<u64>) -> (found:
    bool)
    requires
        old(block)@.nonce < u32::MAX,
        old(scratch)@.len() == crate::pow::SCRATCHPAD_WORDS,
    ensures
        final(scratch)@.len() == crate::pow::SCRATCHPAD_WORDS,
        found ==> final(block)@ == (BlockModel {
            hash: block_hash_hex(old(block)@),
            ..old(block)@
        }) && meets_difficulty(block_hash_hex(old(block)@), difficulty as int) && block_hash_hex(
            old(block)@,
        ).len() == 64,
        !found ==> final(block)@ == (BlockModel { nonce: old(block)@.nonce + 1, ..old(block)@ })
            && !meets_difficulty(block_hash_hex(old(block)@), difficulty as int),
{
    let h = Blockchain::calculate_hash_with(block, scratch);
    if hash_meets_difficulty(h.as_str(), difficulty) {
        block.hash = h;
        proof {
            assert(block@ =~= (BlockModel { hash: block_hash_hex(old(block)@), ..old(block)@ }));
        }
        true
    } else {
        block.nonce = block.nonce + 1;
        proof {
            assert(block@ =~= (BlockModel { nonce: old(block)@.nonce + 1, ..old(block)@ }));
        }
        false
    }
}

/// What the submitter concludes from the node's `submitblock` response
/// line: the block was accepted, the template base was stale — the reason
/// names the predecessor hash — or it was rejected for another reason.
#[derive(Debug, Clone, Copy, PartialEq, Eq, Structural)]
pub enum SubmitOutcome {
    Accepted,
    StalePrevHash,
    RejectedOther,
}

/// Whether a rejection reason blames the predecessor hash.
pub open spec fn mentions_prev_hash(resp: Seq<char>) -> bool {
    ||| crate::strutil::bytes_contain(encode_utf8(resp), encode_utf8("PrevHash"@))
    ||| crate::strutil::bytes_contain(encode_utf8(resp), encode_utf8("prev_hash"@))
}

/// Classify a `submitblock` response: on acceptance the submitter records
/// the new tip; on a predecessor-hash complaint it bumps the cancellation
/// epoch so the workers rebuild their templates; anything else is an
/// ordinary rejection.
pub fn classify_submit_response(resp: &str) -> (r: SubmitOutcome)
    ensures
        r == SubmitOutcome::Accepted <==> resp@ == "ok"@,
        r == SubmitOutcome::StalePrevHash <==> (resp@ != "ok"@ && mentions_prev_hash(resp@)),
        r == SubmitOutcome::RejectedOther <==> (resp@ != "ok"@ && !mentions_prev_hash(resp@)),
{
    if crate::strutil::str_eq(resp, "ok") {
        SubmitOutcome::Accepted
    } else if crate::strutil::str_contains(resp, "PrevHash") || crate::strutil::str_contains(
        resp,
        "prev_hash",
    ) {
        SubmitOutcome::StalePrevHash
    } else {
        SubmitOutcome::RejectedOther
    }
}

} // verus!
