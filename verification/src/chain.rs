//! The chain store: the genesis block, block hashing, chain integrity,
//! the dynamic difficulty oracle, block validation and appending, and the
//! block reward policy.

use vstd::prelude::*;
use vstd::string::*;
use crate::decfmt::dec_chars;
use crate::hexfmt::hex_of_bytes;
use crate::jsonenc::{preimage_enc, block_preimage};
use crate::model::{Transaction, Block, Blockchain, TransactionModel, BlockModel, BlockchainModel};
use crate::pow::{pow_digest, pow_hash, SCRATCHPAD_WORDS, DEFAULT_ITERATIONS};
use crate::sig::{tx_sig_valid, verify_transaction_signature};

verus! {

/// Timestamp of the genesis block: 2025-10-11T00:00:00Z.
pub const GENESIS_TIMESTAMP: u64 = 1760140800;

/// Smallest difficulty the oracle hands out.
pub const MIN_DIFFICULTY: u32 = 1;

/// Largest difficulty the oracle hands out.
pub const MAX_DIFFICULTY: u32 = 7;

/// How many trailing blocks the difficulty oracle averages over.
pub const DIFFICULTY_WINDOW: usize = 10;

/// The hex digest of a block header: the proof-of-work digest of the
/// canonical header preimage, at the default scratchpad size and iteration
/// count. It depends on `index`, `timestamp`, `transactions`, `prev_hash`
/// and `nonce` alone.
pub open spec fn block_hash_hex(b: BlockModel) -> Seq<char> {
    hex_of_bytes(
        pow_digest(preimage_enc(b), SCRATCHPAD_WORDS as nat, DEFAULT_ITERATIONS as nat),
    )
}

/// The difficulty predicate: the first `d` hex digits of the digest are '0'.
/// Digits past the end of the digest are not asked for.
pub open spec fn meets_difficulty(h: Seq<char>, d: int) -> bool {
    forall|i: int| 0 <= i < d && i < h.len() ==> #[trigger] h[i] == '0'
}

/// The single placeholder transaction of the genesis block.
pub open spec fn genesis_tx_model() -> TransactionModel {
    TransactionModel {
        from: "genesis"@,
        pub_key: Seq::empty(),
        to: "network"@,
        amount: 0,
        signature: Seq::empty(),
    }
}

/// The genesis header before its digest is filled in.
pub open spec fn genesis_header_model() -> BlockModel {
    BlockModel {
        index: 0,
        timestamp: GENESIS_TIMESTAMP as int,
        transactions: seq![genesis_tx_model()],
        prev_hash: Seq::empty(),
        hash: Seq::empty(),
        nonce: 0,
        difficulty: 1,
    }
}

/// The genesis block: the fixed header with its own digest recorded.
pub open spec fn genesis_block_model() -> BlockModel {
    BlockModel { hash: block_hash_hex(genesis_header_model()), ..genesis_header_model() }
}

/// Chain integrity as `verify_chain` checks it: every block past the first
/// names its predecessor's digest, records its own recomputed digest, and
/// continues the index sequence.
pub open spec fn chain_linked_ok(chain: Seq<BlockModel>) -> bool {
    forall|i: int|
        1 <= i < chain.len() ==> (#[trigger] chain[i]).prev_hash == chain[i - 1].hash && chain[
            i].hash == block_hash_hex(chain[i]) && chain[i].index == chain[i - 1].index + 1
}

/// Truncating division by ten, rounding towards zero, as the average
/// block time over the window is computed.
pub open spec fn div10_trunc(d: int) -> int {
    if d >= 0 {
        d / 10
    } else {
        -((-d) / 10)
    }
}

/// The difficulty the oracle asks of the next block: start from the tip's
/// recorded difficulty, step towards the target block time by one, and
/// clamp into `[MIN_DIFFICULTY, MAX_DIFFICULTY]`.
pub open spec fn dyn_difficulty(c: BlockchainModel) -> int {
    if c.chain.len() <= DIFFICULTY_WINDOW as int {
        MIN_DIFFICULTY as int
    } else {
        let latest = c.chain[c.chain.len() - 1];
        let earlier = c.chain[c.chain.len() - 1 - DIFFICULTY_WINDOW as int];
        let avg = div10_trunc(latest.timestamp - earlier.timestamp);
        let stepped = if avg < c.target_block_time {
            latest.difficulty + 1
        } else if avg > c.target_block_time {
            latest.difficulty - 1
        } else {
            latest.difficulty
        };
        if stepped < MIN_DIFFICULTY as int {
            MIN_DIFFICULTY as int
        } else if stepped > MAX_DIFFICULTY as int {
            MAX_DIFFICULTY as int
        } else {
            stepped
        }
    }
}

/// The first transaction that needs a signature and fails verification,
/// if any. `"coinbase"` senders are exempt.
pub open spec fn first_invalid_tx(ts: Seq<TransactionModel>) -> Option<TransactionModel>
    decreases ts.len(),
{
    if ts.len() == 0 {
        None
    } else if ts[0].from == "coinbase"@ || tx_sig_valid(ts[0]) {
        first_invalid_tx(ts.drop_first())
    } else {
        Some(ts[0])
    }
}

/// All transactions of a block pass: coinbase records are exempt, every
/// other record's signature verifies.
pub open spec fn block_txs_ok(ts: Seq<TransactionModel>) -> bool {
    forall|i: int|
        0 <= i < ts.len() ==> (#[trigger] ts[i]).from == "coinbase"@ || tx_sig_valid(ts[i])
}

pub proof fn lemma_first_invalid_none_iff(ts: Seq<TransactionModel>)
    ensures
        first_invalid_tx(ts) is None <==> block_txs_ok(ts),
    decreases ts.len(),
{
    if ts.len() == 0 {
    } else {
        lemma_first_invalid_none_iff(ts.drop_first());
        assert(forall|i: int| 0 <= i < ts.drop_first().len() ==> ts.drop_first()[i] == ts[i + 1]);
        if ts[0].from == "coinbase"@ || tx_sig_valid(ts[0]) {
            if block_txs_ok(ts.drop_first()) {
                assert forall|i: int| 0 <= i < ts.len() implies (#[trigger] ts[i]).from
                    == "coinbase"@ || tx_sig_valid(ts[i]) by {
                    if i > 0 {
                        assert(ts.drop_first()[i - 1] == ts[i]);
                    }
                }
            }
        }
    }
}

/// Whether `b` may extend the chain: against an empty chain it must have
/// the genesis shape; otherwise it must name the tip's digest, record its
/// own recomputed digest, and take the next index. Unless `skip_pow`, its
/// digest must meet the supplied network difficulty. Every non-coinbase
/// transaction must carry a valid signature.
pub open spec fn valid_block_ok(c: BlockchainModel, b: BlockModel, d: int, skip_pow: bool) -> bool {
    if c.chain.len() == 0 {
        b.index == 0 && b.prev_hash.len() == 0 && b.hash == block_hash_hex(b)
    } else {
        let last = c.chain[c.chain.len() - 1];
        &&& b.prev_hash == last.hash
        &&& b.hash == block_hash_hex(b)
        &&& b.index == last.index + 1
        &&& (skip_pow || meets_difficulty(b.hash, d))
        &&& block_txs_ok(b.transactions)
    }
}

/// The reason the genesis shape of a candidate against an empty chain is
/// refused, if any.
pub open spec fn genesis_verbose_spec(b: BlockModel) -> Option<Seq<char>> {
    if b.index != 0 {
        Some("Genesis block validation failed: Index must be 0, got "@ + dec_chars(b.index as nat))
    } else if b.prev_hash.len() != 0 {
        Some("Genesis block validation failed: PrevHash must be empty, got "@ + b.prev_hash)
    } else if b.hash != block_hash_hex(b) {
        Some("Genesis block validation failed: Hash mismatch"@)
    } else {
        None
    }
}

/// The message reported for the first transaction whose signature fails.
pub open spec fn txs_verbose_spec(ts: Seq<TransactionModel>) -> Option<Seq<char>> {
    match first_invalid_tx(ts) {
        Some(t) => Some("Invalid transaction signature for tx from "@ + t.from + " to "@ + t.to),
        None => None,
    }
}

/// The reason a candidate against the tip `last` is refused, if any.
pub open spec fn tip_verbose_spec(last: BlockModel, b: BlockModel, d: int, skip_pow: bool) -> Option<
    Seq<char>,
> {
    if b.prev_hash != last.hash {
        Some("PrevHash mismatch: expected "@ + last.hash + " got "@ + b.prev_hash)
    } else if b.hash != block_hash_hex(b) {
        Some("Hash mismatch"@)
    } else if b.index != last.index + 1 {
        Some(
            "Index mismatch: expected "@ + dec_chars((last.index + 1) as nat) + " got "@
                + dec_chars(b.index as nat),
        )
    } else if !skip_pow && !meets_difficulty(b.hash, d) {
        Some("PoW check failed"@)
    } else {
        txs_verbose_spec(b.transactions)
    }
}

/// The reason `validate_block_verbose` reports: the first check that fails,
/// in the fixed order, with the offending values spelled out.
pub open spec fn validate_verbose_spec(
    c: BlockchainModel,
    b: BlockModel,
    d: int,
    skip_pow: bool,
) -> Option<Seq<char>> {
    if c.chain.len() == 0 {
        genesis_verbose_spec(b)
    } else {
        tip_verbose_spec(c.chain[c.chain.len() - 1], b, d, skip_pow)
    }
}

/// The verbose validator reports nothing exactly on the blocks the boolean
/// validator accepts.
pub proof fn lemma_validate_verbose_none_iff(
    c: BlockchainModel,
    b: BlockModel,
    d: int,
    skip_pow: bool,
)
    ensures
        validate_verbose_spec(c, b, d, skip_pow) is None <==> valid_block_ok(c, b, d, skip_pow),
{
    if c.chain.len() > 0 {
        lemma_first_invalid_none_iff(b.transactions);
    }
}

/// What loading a persisted chain must verify before handing it out:
/// the chain starts with the genesis constants bit-exactly; every later
/// block continues the index sequence, names its predecessor's digest and
/// records its own recomputed digest; and every transaction of a later
/// block is either coinbase issuance or carries a valid signature. The
/// genesis block's own placeholder record is unsigned by construction and
/// stands exempt from the signature clause.
pub open spec fn load_integrity_ok(c: BlockchainModel) -> bool {
    &&& c.chain.len() >= 1
    &&& c.chain[0] == genesis_block_model()
    &&& forall|i: int|
        1 <= i < c.chain.len() ==> (#[trigger] c.chain[i]).index == c.chain[i - 1].index + 1
    &&& forall|i: int|
        1 <= i < c.chain.len() ==> (#[trigger] c.chain[i]).prev_hash == c.chain[i - 1].hash
    &&& forall|i: int|
        1 <= i < c.chain.len() ==> (#[trigger] c.chain[i]).hash == block_hash_hex(c.chain[i])
    &&& forall|i: int| 1 <= i < c.chain.len() ==> block_txs_ok((#[trigger] c.chain[i]).transactions)
}

/// Whether every transaction of a block is coinbase issuance or carries a
/// valid signature.
fn block_txs_check(txs: &Vec<Transaction>) -> (r: bool)
    ensures
        r == block_txs_ok(crate::model::tx_views(txs@)),
{
    let ghost ts = crate::model::tx_views(txs@);
    let coinbase = "coinbase".to_owned();
    let mut i: usize = 0;
    while i < txs.len()
        invariant
            ts == crate::model::tx_views(txs@),
            coinbase@ == "coinbase"@,
            i <= txs@.len(),
            forall|j: int| 0 <= j < i ==> (#[trigger] ts[j]).from == "coinbase"@ || tx_sig_valid(ts[j]),
        decreases txs@.len() - i,
    {
        let tx = &txs[i];
        let ok = if tx.from == coinbase {
            true
        } else {
            verify_transaction_signature(tx, tx.pub_key.as_str())
        };
        if !ok {
            proof {
                assert(!((#[trigger] ts[i as int]).from == "coinbase"@ || tx_sig_valid(
                    ts[i as int],
                )));
            }
            return false;
        }
        i = i + 1;
    }
    true
}

impl Blockchain {
    /// Recompute every block's digest in place, as loading does
    /// defensively: the stored digests are ignored and replaced by the
    /// recomputed ones. Nothing else changes.
    pub fn recompute_hashes(&mut self)
        ensures
            final(self)@.chain.len() == old(self)@.chain.len(),
            final(self)@.target_block_time == old(self)@.target_block_time,
            forall|i: int|
                0 <= i < old(self)@.chain.len() ==> final(self)@.chain[i] == (BlockModel {
                    hash: block_hash_hex(old(self)@.chain[i]),
                    ..old(self)@.chain[i]
                }),
    {
        let mut scratch = make_scratch();
        let mut out: Vec<Block> = Vec::new();
        let mut i: usize = 0;
        while i < self.chain.len()
            invariant
                scratch@.len() == SCRATCHPAD_WORDS,
                self@ == old(self)@,
                self.chain@ == old(self).chain@,
                i <= self.chain@.len(),
                out@.len() == i,
                forall|j: int|
                    0 <= j < i ==> (#[trigger] out@[j])@ == (BlockModel {
                        hash: block_hash_hex(old(self)@.chain[j]),
                        ..old(self)@.chain[j]
                    }),
            decreases self.chain@.len() - i,
        {
            let mut nb = self.chain[i].clone();
            let h = Self::calculate_hash_with(&nb, &mut scratch);
            nb.hash = h;
            proof {
                assert(nb@ =~= (BlockModel {
                    hash: block_hash_hex(old(self)@.chain[i as int]),
                    ..old(self)@.chain[i as int]
                }));
            }
            out.push(nb);
            i = i + 1;
        }
        self.chain = out;
    }

    /// Check the integrity a freshly loaded chain must have: the genesis
    /// constants bit-exactly at position zero, index continuity,
    /// predecessor linkage, recomputed digests, and the transaction
    /// signatures of every later block.
    #[verifier::rlimit(100)]
    pub fn check_load_integrity(&self) -> (r: Result<(), String>)
        ensures
            r is Ok <==> load_integrity_ok(self@),
    {
        if self.chain.len() == 0 {
            return Err("chain is empty".to_owned());
        }
        let g = &self.chain[0];
        if g.index != 0 || g.timestamp != GENESIS_TIMESTAMP || g.nonce != 0 || g.difficulty != 1 {
            return Err("genesis header does not match the genesis constants".to_owned());
        }
        if !g.prev_hash.as_str().is_empty() {
            return Err("genesis predecessor digest is not empty".to_owned());
        }
        if g.transactions.len() != 1 {
            proof {
                assert(genesis_block_model().transactions =~= seq![genesis_tx_model()]);
                assert(self@.chain[0] != genesis_block_model());
            }
            return Err("genesis does not hold the single placeholder record".to_owned());
        }
        let gt = &g.transactions[0];
        if !(crate::strutil::str_eq(gt.from.as_str(), "genesis") && gt.pub_key.as_str().is_empty()
            && crate::strutil::str_eq(gt.to.as_str(), "network") && gt.amount == 0
            && gt.signature.as_str().is_empty()) {
            proof {
                assert(genesis_block_model().transactions =~= seq![genesis_tx_model()]);
                if self@.chain[0] == genesis_block_model() {
                    assert(self@.chain[0].transactions[0] == genesis_tx_model());
                    assert(gt@ == genesis_tx_model());
                    assert(gt@.from == "genesis"@ && gt@.pub_key.len() == 0 && gt@.to
                        == "network"@ && gt@.amount == 0 && gt@.signature.len() == 0);
                }
            }
            return Err("genesis placeholder record does not match the constants".to_owned());
        }
        proof {
            assert(gt@.pub_key =~= Seq::<char>::empty());
            assert(gt@.signature =~= Seq::<char>::empty());
            assert(gt@ =~= genesis_tx_model());
            assert(self@.chain[0].transactions[0] == gt@);
            assert(self@.chain[0].transactions =~= seq![genesis_tx_model()]);
            assert(self@.chain[0].prev_hash =~= Seq::<char>::empty());
            crate::mining::lemma_hash_ignores_hash_and_difficulty(
                self@.chain[0],
                genesis_header_model(),
            );
        }
        let calc = Self::calculate_hash(g);
        if !(calc == g.hash) {
            proof {
                assert(self@.chain[0] != genesis_block_model());
            }
            return Err("genesis digest does not recompute".to_owned());
        }
        proof {
            assert(self@.chain[0] =~= genesis_block_model());
        }
        let mut scratch = make_scratch();
        let mut i: usize = 1;
        while i < self.chain.len()
            invariant
                scratch@.len() == SCRATCHPAD_WORDS,
                1 <= i,
                self@.chain.len() >= 1,
                i <= self@.chain.len() || i == 1,
                self@.chain[0] == genesis_block_model(),
                forall|j: int|
                    1 <= j < i ==> (#[trigger] self@.chain[j]).index == self@.chain[j - 1].index
                        + 1,
                forall|j: int|
                    1 <= j < i ==> (#[trigger] self@.chain[j]).prev_hash == self@.chain[j
                        - 1].hash,
                forall|j: int|
                    1 <= j < i ==> (#[trigger] self@.chain[j]).hash == block_hash_hex(
                        self@.chain[j],
                    ),
                forall|j: int|
                    1 <= j < i ==> block_txs_ok((#[trigger] self@.chain[j]).transactions),
            decreases self@.chain.len() - i,
        {
            let prev = &self.chain[i - 1];
            let cur = &self.chain[i];
            let index_ok = cur.index >= 1 && prev.index == cur.index - 1;
            if !index_ok {
                proof {
                    assert(self@.chain[i as int].index != self@.chain[i - 1].index + 1);
                }
                return Err("block index does not continue the sequence".to_owned());
            }
            if !(cur.prev_hash == prev.hash) {
                proof {
                    assert(self@.chain[i as int].prev_hash != self@.chain[i - 1].hash);
                }
                return Err("block does not name its predecessor's digest".to_owned());
            }
            let calc = Self::calculate_hash_with(cur, &mut scratch);
            if !(calc == cur.hash) {
                proof {
                    assert(self@.chain[i as int].hash != block_hash_hex(self@.chain[i as int]));
                }
                return Err("block digest does not recompute".to_owned());
            }
            if !block_txs_check(&cur.transactions) {
                proof {
                    assert(!block_txs_ok(self@.chain[i as int].transactions));
                }
                return Err("block holds an invalid transaction signature".to_owned());
            }
            i = i + 1;
        }
        Ok(())
    }
}

/// What a successfully loaded chain is, relative to the parsed document
/// `c`: the genesis chain when the document's chain was empty, and
/// otherwise the document's blocks with every digest recomputed in place.
pub open spec fn loaded_from(c: BlockchainModel, bc: BlockchainModel) -> bool {
    if c.chain.len() == 0 {
        bc.chain == seq![genesis_block_model()] && bc.target_block_time == c.target_block_time
    } else {
        &&& bc.chain.len() == c.chain.len()
        &&& bc.target_block_time == c.target_block_time
        &&& forall|i: int|
            0 <= i < c.chain.len() ==> bc.chain[i] == (BlockModel {
                hash: block_hash_hex(#[trigger] c.chain[i]),
                ..c.chain[i]
            })
    }
}

/// Load a persisted chain document: parse the canonical bytes, insert the
/// genesis block when the parsed chain is empty, recompute every digest
/// defensively, and verify the load-time integrity invariants. A result
/// comes back only when some canonical document carried it and it passed
/// every check. The file handling around this stays with the caller.
pub fn load_chain_document(bytes: &Vec<u8>) -> (r: Result<Blockchain, String>)
    ensures
        r is Ok ==> load_integrity_ok(r->Ok_0@),
        r is Ok ==> exists|c: BlockchainModel|
            crate::jsonenc::chain_enc(c) == bytes@ && loaded_from(c, r->Ok_0@),
{
    let mut bc = match crate::jsonparse::parse_chain_json(bytes) {
        Some(bc) => bc,
        None => {
            return Err("not a canonical chain document".to_owned());
        },
    };
    let ghost c = bc@;
    if bc.chain.len() == 0 {
        bc.chain = Blockchain::new().chain;
        proof {
            assert(loaded_from(c, bc@));
        }
    } else {
        bc.recompute_hashes();
        proof {
            assert(loaded_from(c, bc@));
        }
    }
    match bc.check_load_integrity() {
        Ok(()) => Ok(bc),
        Err(reason) => {
            let mut msg = "integrity check failed: ".to_owned();
            msg.append(reason.as_str());
            Err(msg)
        },
    }
}

/// The constant block reward, in milli-units, for the block at `height`.
pub open spec fn block_reward(height: int) -> int {
    1000
}

/// A fresh scratchpad of the default size.
pub(crate) fn make_scratch() -> (r: Vec<u64>)
    ensures
        r@.len() == SCRATCHPAD_WORDS,
{
    let mut v: Vec<u64> = Vec::new();
    let mut i: usize = 0;
    while i < SCRATCHPAD_WORDS
        invariant
            v@.len() == i,
            i <= SCRATCHPAD_WORDS,
        decreases SCRATCHPAD_WORDS - i,
    {
        v.push(0);
        i = i + 1;
    }
    v
}

/// Check the difficulty predicate on a hex digest.
pub fn hash_meets_difficulty(h: &str, d: u32) -> (r: bool)
    ensures
        r == meets_difficulty(h@, d as int),
{
    let n = h.unicode_len();
    let lim: usize = if (d as usize) < n {
        d as usize
    } else {
        n
    };
    let mut i: usize = 0;
    while i < lim
        invariant
            n == h@.len(),
            lim <= n,
            lim == if (d as int) < n {
                d as int
            } else {
                n as int
            },
            i <= lim,
            forall|j: int| 0 <= j < i ==> #[trigger] h@[j] == '0',
        decreases lim - i,
    {
        if h.get_char(i) != '0' {
            return false;
        }
        i = i + 1;
    }
    true
}

/// Validate the genesis shape of a candidate against an empty chain.
fn validate_genesis_verbose(block: &Block) -> (r: Option<String>)
    ensures
        match r {
            None => genesis_verbose_spec(block@) is None,
            Some(msg) => genesis_verbose_spec(block@) == Some(msg@),
        },
{
    if block.index != 0 {
        let mut msg = "Genesis block validation failed: Index must be 0, got ".to_owned();
        msg.append(crate::decfmt::u64_to_dec(block.index).as_str());
        return Some(msg);
    }
    if !block.prev_hash.as_str().is_empty() {
        let mut msg = "Genesis block validation failed: PrevHash must be empty, got ".to_owned();
        msg.append(block.prev_hash.as_str());
        return Some(msg);
    }
    let calc = Blockchain::calculate_hash(block);
    if !(calc == block.hash) {
        return Some("Genesis block validation failed: Hash mismatch".to_owned());
    }
    None
}

/// Check every transaction signature of a candidate, reporting the first
/// failure.
fn check_txs_verbose(txs: &Vec<Transaction>) -> (r: Option<String>)
    ensures
        match r {
            None => txs_verbose_spec(crate::model::tx_views(txs@)) is None,
            Some(msg) => txs_verbose_spec(crate::model::tx_views(txs@)) == Some(msg@),
        },
{
    let ghost ts = crate::model::tx_views(txs@);
    let coinbase = "coinbase".to_owned();
    let mut i: usize = 0;
    proof {
        assert(ts.skip(0) =~= ts);
    }
    while i < txs.len()
        invariant
            ts == crate::model::tx_views(txs@),
            coinbase@ == "coinbase"@,
            i <= txs@.len(),
            first_invalid_tx(ts) == first_invalid_tx(ts.skip(i as int)),
        decreases txs@.len() - i,
    {
        let tx = &txs[i];
        let skip_tx = tx.from == coinbase;
        let ok = if skip_tx {
            true
        } else {
            verify_transaction_signature(tx, tx.pub_key.as_str())
        };
        proof {
            assert(ts.skip(i as int).len() > 0);
            assert(ts.skip(i as int)[0] == ts[i as int]);
            assert(ts.skip(i as int).drop_first() =~= ts.skip(i + 1));
        }
        if !ok {
            let mut msg = "Invalid transaction signature for tx from ".to_owned();
            msg.append(tx.from.as_str());
            msg.append(" to ");
            msg.append(tx.to.as_str());
            return Some(msg);
        }
        i = i + 1;
    }
    proof {
        assert(ts.skip(ts.len() as int) =~= Seq::<TransactionModel>::empty());
    }
    None
}

/// Validate a candidate against the tip block `last`.
fn validate_tip_verbose(last: &Block, block: &Block, difficulty: u32, skip_pow: bool) -> (r: Option<
    String,
>)
    ensures
        match r {
            None => tip_verbose_spec(last@, block@, difficulty as int, skip_pow) is None,
            Some(msg) => tip_verbose_spec(last@, block@, difficulty as int, skip_pow) == Some(msg@),
        },
{
    if !(block.prev_hash == last.hash) {
        let mut msg = "PrevHash mismatch: expected ".to_owned();
        msg.append(last.hash.as_str());
        msg.append(" got ");
        msg.append(block.prev_hash.as_str());
        return Some(msg);
    }
    let calc = Blockchain::calculate_hash(block);
    if !(calc == block.hash) {
        return Some("Hash mismatch".to_owned());
    }
    let expected_index_ok = block.index >= 1 && last.index == block.index - 1;
    if !expected_index_ok {
        let mut msg = "Index mismatch: expected ".to_owned();
        msg.append(crate::decfmt::u128_to_dec((last.index as u128) + 1).as_str());
        msg.append(" got ");
        msg.append(crate::decfmt::u64_to_dec(block.index).as_str());
        return Some(msg);
    }
    if !skip_pow {
        if !hash_meets_difficulty(block.hash.as_str(), difficulty) {
            return Some("PoW check failed".to_owned());
        }
    }
    check_txs_verbose(&block.transactions)
}

impl Blockchain {
    /// A fresh chain: the genesis block alone, with the default 30-second
    /// block-time target.
    pub fn new() -> (r: Self)
        ensures
            r@.chain =~= seq![genesis_block_model()],
            r@.target_block_time == 30,
    {
        let mut chain: Vec<Block> = Vec::new();
        chain.push(Self::create_genesis_block());
        let r = Blockchain { chain, target_block_time: 30 };
        proof {
            assert(r@.chain =~= seq![genesis_block_model()]);
        }
        r
    }

    /// Build the fixed genesis block and record its digest.
    pub fn create_genesis_block() -> (r: Block)
        ensures
            r@ =~= genesis_block_model(),
    {
        let tx = Transaction {
            from: "genesis".to_owned(),
            pub_key: String::new(),
            to: "network".to_owned(),
            amount: 0,
            signature: String::new(),
        };
        let mut txs: Vec<Transaction> = Vec::new();
        txs.push(tx);
        let mut block = Block {
            index: 0,
            timestamp: GENESIS_TIMESTAMP,
            transactions: txs,
            prev_hash: String::new(),
            hash: String::new(),
            nonce: 0,
            difficulty: 1,
        };
        proof {
            assert(block@ =~= genesis_header_model()) by {
                assert(block@.transactions =~= seq![genesis_tx_model()]);
            }
        }
        block.hash = Self::calculate_hash(&block);
        proof {
            assert(block@ =~= genesis_block_model());
        }
        block
    }

    /// The proof-of-work digest of a block header, as lowercase hex:
    /// sixty-four hex digits of a 32-byte digest.
    pub fn calculate_hash(block: &Block) -> (r: String)
        ensures
            r@ == block_hash_hex(block@),
            r@.len() == 64,
    {
        let mut scratch = make_scratch();
        Self::calculate_hash_with(block, &mut scratch)
    }

    /// As `calculate_hash`, reusing a caller-owned scratchpad of the
    /// default size. The digest never depends on the old scratchpad
    /// contents: they are fully overwritten.
    pub fn calculate_hash_with(block: &Block, scratch: &mut Vec<u64>) -> (r: String)
        requires
            old(scratch)@.len() == SCRATCHPAD_WORDS,
        ensures
            r@ == block_hash_hex(block@),
            r@.len() == 64,
            final(scratch)@.len() == SCRATCHPAD_WORDS,
    {
        let pre = block_preimage(block);
        let digest = pow_hash(&pre, DEFAULT_ITERATIONS, scratch);
        crate::hexfmt::hex_encode(&digest)
    }

    /// Check the linkage invariants over the whole chain: every block past
    /// the first names its predecessor's digest, every recorded digest
    /// recomputes, and the indexes continue without a gap.
    #[verifier::rlimit(100)]
    pub fn verify_chain(&self) -> (r: Result<(), String>)
        ensures
            r is Ok <==> chain_linked_ok(self@.chain),
    {
        let mut scratch = make_scratch();
        let mut i: usize = 1;
        while i < self.chain.len()
            invariant
                scratch@.len() == SCRATCHPAD_WORDS,
                1 <= i,
                i <= self.chain@.len() || i == 1,
                forall|j: int|
                    1 <= j < i && j < self.chain@.len() ==> (#[trigger] self@.chain[j]).prev_hash
                        == self@.chain[j - 1].hash && self@.chain[j].hash == block_hash_hex(
                        self@.chain[j],
                    ) && self@.chain[j].index == self@.chain[j - 1].index + 1,
            decreases self.chain@.len() - i,
        {
            let prev = &self.chain[i - 1];
            let cur = &self.chain[i];
            if !(cur.prev_hash == prev.hash) {
                proof {
                    assert(self@.chain[i as int].prev_hash != self@.chain[i - 1].hash);
                    assert(!chain_linked_ok(self@.chain));
                }
                let mut msg = "chain broken at index ".to_owned();
                msg.append(crate::decfmt::u64_to_dec(cur.index).as_str());
                msg.append(": prev_hash ");
                msg.append(cur.prev_hash.as_str());
                msg.append(" != prev.hash ");
                msg.append(prev.hash.as_str());
                return Err(msg);
            }
            let calc = Self::calculate_hash_with(cur, &mut scratch);
            if !(calc == cur.hash) {
                proof {
                    assert(self@.chain[i as int].hash != block_hash_hex(self@.chain[i as int]));
                    assert(!chain_linked_ok(self@.chain));
                }
                let mut msg = "invalid hash at index ".to_owned();
                msg.append(crate::decfmt::u64_to_dec(cur.index).as_str());
                msg.append(": ");
                msg.append(calc.as_str());
                msg.append(" != ");
                msg.append(cur.hash.as_str());
                return Err(msg);
            }
            let index_ok = cur.index >= 1 && prev.index == cur.index - 1;
            if !index_ok {
                proof {
                    assert(self@.chain[i as int].index != self@.chain[i - 1].index + 1);
                    assert(!chain_linked_ok(self@.chain));
                }
                let mut msg = "chain broken at index ".to_owned();
                msg.append(crate::decfmt::u64_to_dec(cur.index).as_str());
                msg.append(": index does not continue from ");
                msg.append(crate::decfmt::u64_to_dec(prev.index).as_str());
                return Err(msg);
            }
            i = i + 1;
        }
        Ok(())
    }

    /// The difficulty the next block must meet: see `dyn_difficulty`.
    pub fn get_dynamic_difficulty(&self) -> (r: u32)
        ensures
            r == dyn_difficulty(self@),
            MIN_DIFFICULTY <= r <= MAX_DIFFICULTY,
    {
        if self.chain.len() <= DIFFICULTY_WINDOW {
            return MIN_DIFFICULTY;
        }
        let latest = &self.chain[self.chain.len() - 1];
        let earlier = &self.chain[self.chain.len() - 1 - DIFFICULTY_WINDOW];
        let target = self.target_block_time;

        // The truncated average block time over the window, compared with
        // the target; the two comparisons are all that is needed.
        let avg_lt_target: bool;
        let avg_gt_target: bool;
        if latest.timestamp >= earlier.timestamp {
            let avg: u64 = (latest.timestamp - earlier.timestamp) / 10;
            if target < 0 {
                avg_lt_target = false;
                avg_gt_target = true;
            } else {
                avg_lt_target = avg < (target as u64);
                avg_gt_target = avg > (target as u64);
            }
        } else {
            let mag: u64 = (earlier.timestamp - latest.timestamp) / 10;
            if target >= 0 {
                avg_lt_target = mag > 0 || target > 0;
                avg_gt_target = false;
            } else {
                let tmag: u64 = if target == i64::MIN {
                    9223372036854775808u64
                } else {
                    (-target) as u64
                };
                avg_lt_target = mag > tmag;
                avg_gt_target = mag < tmag;
            }
        }
        proof {
            let latest_m = self@.chain[self@.chain.len() - 1];
            let earlier_m = self@.chain[self@.chain.len() - 1 - DIFFICULTY_WINDOW as int];
            let avg = div10_trunc(latest_m.timestamp - earlier_m.timestamp);
            assert(avg_lt_target == (avg < self@.target_block_time));
            assert(avg_gt_target == (avg > self@.target_block_time));
        }
        let base = latest.difficulty;
        let stepped: u32 = if avg_lt_target {
            if base >= u32::MAX {
                u32::MAX
            } else {
                base + 1
            }
        } else if avg_gt_target {
            if base == 0 {
                0
            } else {
                base - 1
            }
        } else {
            base
        };
        let clamped: u32 = if stepped < MIN_DIFFICULTY {
            MIN_DIFFICULTY
        } else if stepped > MAX_DIFFICULTY {
            MAX_DIFFICULTY
        } else {
            stepped
        };
        clamped
    }

    /// Accept or reject a candidate block. Mirrors
    /// `validate_block_verbose`, which spells out the first failure.
    pub fn validate_block(&self, block: &Block, difficulty: u32, skip_pow: bool) -> (r: bool)
        ensures
            r == valid_block_ok(self@, block@, difficulty as int, skip_pow),
    {
        proof {
            lemma_validate_verbose_none_iff(self@, block@, difficulty as int, skip_pow);
        }
        match self.validate_block_verbose(block, difficulty, skip_pow) {
            None => true,
            Some(_) => false,
        }
    }

    /// Validate a candidate block, reporting the first failure in words:
    /// the predecessor linkage, the recorded digest, the index, the
    /// difficulty predicate (unless `skip_pow`), then every transaction
    /// signature.
    pub fn validate_block_verbose(&self, block: &Block, difficulty: u32, skip_pow: bool) -> (r:
        Option<String>)
        ensures
            match r {
                None => validate_verbose_spec(self@, block@, difficulty as int, skip_pow) is None,
                Some(msg) => validate_verbose_spec(self@, block@, difficulty as int, skip_pow)
                    == Some(msg@),
            },
    {
        if self.chain.len() == 0 {
            validate_genesis_verbose(block)
        } else {
            let last = &self.chain[self.chain.len() - 1];
            proof {
                assert(last@ == self@.chain[self@.chain.len() - 1]);
            }
            validate_tip_verbose(last, block, difficulty, skip_pow)
        }
    }

    /// Validate against the supplied network difficulty and append on
    /// success. The chain is unchanged on rejection.
    pub fn add_block(&mut self, block: Block, difficulty: u32) -> (r: bool)
        ensures
            r == valid_block_ok(old(self)@, block@, difficulty as int, false),
            r ==> final(self)@.chain =~= old(self)@.chain.push(block@),
            !r ==> final(self)@ =~= old(self)@,
            final(self)@.target_block_time == old(self)@.target_block_time,
    {
        self.add_block_skip_pow(block, difficulty, false)
    }

    /// As `add_block`, optionally skipping the proof-of-work check.
    pub fn add_block_skip_pow(&mut self, block: Block, difficulty: u32, skip_pow: bool) -> (r: bool)
        ensures
            r == valid_block_ok(old(self)@, block@, difficulty as int, skip_pow),
            r ==> final(self)@.chain =~= old(self)@.chain.push(block@),
            !r ==> final(self)@ =~= old(self)@,
            final(self)@.target_block_time == old(self)@.target_block_time,
    {
        if self.validate_block(&block, difficulty, skip_pow) {
            let ghost b = block@;
            self.chain.push(block);
            proof {
                assert(self@.chain =~= old(self)@.chain.push(b));
            }
            true
        } else {
            proof {
                assert(self@ =~= old(self)@);
            }
            false
        }
    }

    /// The reward paid by the coinbase of the block at `height`: the
    /// constant policy, deterministic in the height.
    pub fn get_block_reward(&self, height: u64) -> (r: i64)
        ensures
            r == block_reward(height as int),
    {
        1000
    }
}

} // verus!
