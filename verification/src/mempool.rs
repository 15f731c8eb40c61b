//! The mempool: pending signed transactions, de-duplicated by signature,
//! admitted against the sender's on-chain balance net of pending spends,
//! and drained when an accepted block includes them. Address comparison is
//! case-insensitive on the trimmed string, as everywhere in the node.

use vstd::prelude::*;
use vstd::string::*;
use crate::model::{Transaction, Block, Blockchain, TransactionModel, BlockModel, tx_views};
use crate::sig::{tx_sig_valid, verify_transaction_signature};
use crate::strutil::str_eq;

verus! {

/// What `str::to_lowercase` returns: a function of the characters alone.
pub uninterp spec fn lower_of(s: Seq<char>) -> Seq<char>;

/// What `str::trim` returns: a function of the characters alone.
pub uninterp spec fn trim_of(s: Seq<char>) -> Seq<char>;

/// Relies on `str::to_lowercase`: the Unicode lowercase mapping, which
/// depends on the characters alone and on no locale.
#[verifier::external_body]
fn to_lowercase(s: &str) -> (r: String)
    ensures
        r@ == lower_of(s@),
{
    s.to_lowercase()
}

/// Relies on `str::trim`: the characters with leading and trailing
/// whitespace removed, a function of the characters alone.
#[verifier::external_body]
fn trim<'a>(s: &'a str) -> (r: &'a str)
    ensures
        r@ == trim_of(s@),
{
    s.trim()
}

/// The normal form under which addresses are compared: trimmed, lowercased.
pub open spec fn norm(s: Seq<char>) -> Seq<char> {
    lower_of(trim_of(s))
}

/// Normalize an address for comparison.
pub fn norm_addr(s: &str) -> (r: String)
    ensures
        r@ == norm(s@),
{
    to_lowercase(trim(s))
}

/// What one transaction adds to the balance of `addr` (already in normal
/// form): credit when it pays `addr`, debit when `addr` sent it. With
/// `exempt_coinbase`, coinbase issuance never debits anyone.
pub open spec fn tx_delta(t: TransactionModel, addr: Seq<char>, exempt_coinbase: bool) -> int {
    (if norm(t.to) == addr {
        t.amount
    } else {
        0
    }) - (if norm(t.from) == addr && !(exempt_coinbase && t.from == "coinbase"@) {
        t.amount
    } else {
        0
    })
}

/// The balance contribution of a transaction list.
pub open spec fn txs_balance(ts: Seq<TransactionModel>, addr: Seq<char>, exempt: bool) -> int
    decreases ts.len(),
{
    if ts.len() == 0 {
        0
    } else {
        txs_balance(ts.drop_last(), addr, exempt) + tx_delta(ts.last(), addr, exempt)
    }
}

/// The on-chain balance of `addr` over a whole chain.
pub open spec fn chain_balance(bs: Seq<BlockModel>, addr: Seq<char>, exempt: bool) -> int
    decreases bs.len(),
{
    if bs.len() == 0 {
        0
    } else {
        chain_balance(bs.drop_last(), addr, exempt) + txs_balance(bs.last().transactions, addr, exempt)
    }
}

/// The number of transactions over the whole chain.
pub open spec fn chain_tx_count(bs: Seq<BlockModel>) -> int
    decreases bs.len(),
{
    if bs.len() == 0 {
        0
    } else {
        chain_tx_count(bs.drop_last()) + bs.last().transactions.len()
    }
}

/// The sum of pending mempool amounts whose sender matches `addr`.
pub open spec fn pending_out(ts: Seq<TransactionModel>, addr: Seq<char>) -> int
    decreases ts.len(),
{
    if ts.len() == 0 {
        0
    } else {
        pending_out(ts.drop_last(), addr) + (if norm(ts.last().from) == addr {
            ts.last().amount
        } else {
            0
        })
    }
}

/// Whether some transaction in the list carries this signature.
pub open spec fn has_signature(ts: Seq<TransactionModel>, sig: Seq<char>) -> bool {
    exists|i: int| 0 <= i < ts.len() && (#[trigger] ts[i]).signature == sig
}

/// The transactions that survive the acceptance of a block: those whose
/// signature the block does not carry.
pub open spec fn without_signatures(
    ts: Seq<TransactionModel>,
    bts: Seq<TransactionModel>,
) -> Seq<TransactionModel>
    decreases ts.len(),
{
    if ts.len() == 0 {
        Seq::empty()
    } else {
        without_signatures(ts.drop_last(), bts) + (if has_signature(bts, ts.last().signature) {
            Seq::empty()
        } else {
            seq![ts.last()]
        })
    }
}

/// Why a submitted transaction was rejected.
#[derive(Debug, Clone, Copy, PartialEq, Eq, Structural)]
pub enum SubmitTxError {
    InvalidSignature,
    InvalidAmount,
    InsufficientFunds,
}

/// The pending transactions, in submission order.
#[derive(Debug, PartialEq, Eq)]
pub struct Mempool {
    pub transactions: Vec<Transaction>,
}

impl View for Mempool {
    type V = Seq<TransactionModel>;

    open spec fn view(&self) -> Seq<TransactionModel> {
        tx_views(self.transactions@)
    }
}

/// Whether a submission is admitted: the signature verifies, the amount is
/// positive, and — for a non-coinbase sender not already pending — the
/// on-chain balance net of pending spends covers it.
pub open spec fn submit_ok(
    chain: Seq<BlockModel>,
    pool: Seq<TransactionModel>,
    t: TransactionModel,
) -> bool {
    &&& tx_sig_valid(t)
    &&& t.amount > 0
    &&& (has_signature(pool, t.signature) || norm(t.from) == "coinbase"@ || chain_balance(
        chain,
        norm(t.from),
        true,
    ) - pending_out(pool, norm(t.from)) >= t.amount)
}

impl Mempool {
    /// An empty mempool.
    pub fn new() -> (r: Self)
        ensures
            r@ =~= Seq::<TransactionModel>::empty(),
    {
        Mempool { transactions: Vec::new() }
    }

    /// Whether a transaction with this signature is already pending.
    pub fn contains_signature(&self, sig: &str) -> (r: bool)
        ensures
            r == has_signature(self@, sig@),
    {
        let mut i: usize = 0;
        while i < self.transactions.len()
            invariant
                i <= self.transactions@.len(),
                forall|j: int| 0 <= j < i ==> (#[trigger] self@[j]).signature != sig@,
            decreases self.transactions@.len() - i,
        {
            if str_eq(self.transactions[i].signature.as_str(), sig) {
                proof {
                    assert(self@[i as int].signature == sig@);
                }
                return true;
            }
            i = i + 1;
        }
        false
    }

    /// Admit a pending transaction, as the node does on `submittx`: reject
    /// an invalid signature, a non-positive amount, and — unless the
    /// sender is the coinbase sentinel — an amount the sender's on-chain
    /// balance net of already-pending spends cannot cover. Submitting a
    /// signature already pending is accepted and changes nothing, so the
    /// pool stays de-duplicated by signature.
    pub fn submit_tx(&mut self, chain: &Blockchain, tx: Transaction) -> (r: Result<
        (),
        SubmitTxError,
    >)
        requires
            chain_tx_count(chain@.chain) <= i64::MAX,
            old(self)@.len() <= i64::MAX,
        ensures
            r is Ok <==> submit_ok(chain@.chain, old(self)@, tx@),
            r == Err::<(), SubmitTxError>(SubmitTxError::InvalidSignature) <==> !tx_sig_valid(tx@),
            r == Err::<(), SubmitTxError>(SubmitTxError::InvalidAmount) <==> (tx_sig_valid(tx@)
                && tx@.amount <= 0),
            r is Ok && !has_signature(old(self)@, tx@.signature) ==> final(self)@ =~= old(
                self,
            )@.push(tx@),
            r is Err || has_signature(old(self)@, tx@.signature) ==> final(self)@ =~= old(self)@,
    {
        if !verify_transaction_signature(&tx, tx.pub_key.as_str()) {
            return Err(SubmitTxError::InvalidSignature);
        }
        if tx.amount <= 0 {
            return Err(SubmitTxError::InvalidAmount);
        }
        if self.contains_signature(tx.signature.as_str()) {
            return Ok(());
        }
        let from_key = norm_addr(tx.from.as_str());
        if !str_eq(from_key.as_str(), "coinbase") {
            let onchain = chain_balance_exec(chain, from_key.as_str(), true);
            let pending = self.pending_out_exec(from_key.as_str());
            proof {
                vstd::arithmetic::mul::lemma_mul_inequality(
                    chain_tx_count(chain@.chain),
                    i64::MAX as int,
                    0x8000_0000_0000_0000,
                );
                vstd::arithmetic::mul::lemma_mul_inequality(
                    self@.len() as int,
                    i64::MAX as int,
                    0x8000_0000_0000_0000,
                );
            }
            if onchain < pending + (tx.amount as i128) {
                return Err(SubmitTxError::InsufficientFunds);
            }
        }
        let ghost t = tx@;
        self.transactions.push(tx);
        proof {
            assert(self@ =~= old(self)@.push(t));
        }
        Ok(())
    }

    /// The pending spend total of a sender, for the admission check.
    fn pending_out_exec(&self, addr: &str) -> (r: i128)
        requires
            self@.len() <= i64::MAX,
        ensures
            r == pending_out(self@, addr@),
            -(self@.len() as int) * 0x8000_0000_0000_0000 <= r <= (self@.len() as int)
                * 0x8000_0000_0000_0000,
    {
        let mut acc: i128 = 0;
        let mut i: usize = 0;
        while i < self.transactions.len()
            invariant
                i <= self.transactions@.len(),
                self@.len() <= i64::MAX,
                acc == pending_out(self@.subrange(0, i as int), addr@),
                -(i as int) * 0x8000_0000_0000_0000 <= acc <= (i as int) * 0x8000_0000_0000_0000,
            decreases self.transactions@.len() - i,
        {
            let t = &self.transactions[i];
            let key = norm_addr(t.from.as_str());
            proof {
                vstd::arithmetic::mul::lemma_mul_inequality(
                    i as int,
                    i64::MAX as int,
                    0x8000_0000_0000_0000,
                );
            }
            if str_eq(key.as_str(), addr) {
                acc = acc + (t.amount as i128);
            }
            proof {
                assert(self@.subrange(0, i + 1).drop_last() =~= self@.subrange(0, i as int));
                assert(self@.subrange(0, i + 1).last() == self@[i as int]);
            }
            i = i + 1;
        }
        proof {
            assert(self@.subrange(0, self@.len() as int) =~= self@);
        }
        acc
    }

    /// Drop every pending transaction whose signature the accepted block
    /// carries.
    pub fn remove_included(&mut self, block: &Block)
        ensures
            final(self)@ =~= without_signatures(old(self)@, block@.transactions),
    {
        let mut kept: Vec<Transaction> = Vec::new();
        let mut i: usize = 0;
        while i < self.transactions.len()
            invariant
                i <= self.transactions@.len(),
                tx_views(kept@) =~= without_signatures(
                    old(self)@.subrange(0, i as int),
                    block@.transactions,
                ),
                self@ == old(self)@,
                self.transactions@ == old(self).transactions@,
            decreases self.transactions@.len() - i,
        {
            let t = &self.transactions[i];
            let included = block_has_signature(block, t.signature.as_str());
            proof {
                assert(old(self)@.subrange(0, i + 1).drop_last() =~= old(self)@.subrange(
                    0,
                    i as int,
                ));
                assert(old(self)@.subrange(0, i + 1).last() == old(self)@[i as int]);
            }
            if !included {
                kept.push(t.clone());
            }
            proof {
                assert(tx_views(kept@) =~= without_signatures(
                    old(self)@.subrange(0, i + 1),
                    block@.transactions,
                ));
            }
            i = i + 1;
        }
        proof {
            assert(old(self)@.subrange(0, old(self)@.len() as int) =~= old(self)@);
        }
        self.transactions = kept;
    }
}

/// Whether the block carries a transaction with this signature.
pub fn block_has_signature(block: &Block, sig: &str) -> (r: bool)
    ensures
        r == has_signature(block@.transactions, sig@),
{
    let mut i: usize = 0;
    while i < block.transactions.len()
        invariant
            i <= block.transactions@.len(),
            forall|j: int| 0 <= j < i ==> (#[trigger] block@.transactions[j]).signature != sig@,
        decreases block.transactions@.len() - i,
    {
        if str_eq(block.transactions[i].signature.as_str(), sig) {
            proof {
                assert(block@.transactions[i as int].signature == sig@);
            }
            return true;
        }
        i = i + 1;
    }
    false
}

/// The on-chain balance of `addr` (already normalized), exact in 128 bits.
pub fn chain_balance_exec(chain: &Blockchain, addr: &str, exempt: bool) -> (r: i128)
    requires
        chain_tx_count(chain@.chain) <= i64::MAX,
    ensures
        r == chain_balance(chain@.chain, addr@, exempt),
        -chain_tx_count(chain@.chain) * 0x8000_0000_0000_0000 <= r <= chain_tx_count(chain@.chain)
            * 0x8000_0000_0000_0000,
{
    let mut acc: i128 = 0;
    let ghost limit: int = 0x8000_0000_0000_0000;
    let mut i: usize = 0;
    proof {
        lemma_chain_tx_count_prefix(chain@.chain, 0);
    }
    while i < chain.chain.len()
        invariant
            chain_tx_count(chain@.chain) <= i64::MAX,
            i <= chain.chain@.len(),
            limit == 0x8000_0000_0000_0000,
            acc == chain_balance(chain@.chain.subrange(0, i as int), addr@, exempt),
            -chain_tx_count(chain@.chain.subrange(0, i as int)) * limit <= acc <= chain_tx_count(
                chain@.chain.subrange(0, i as int),
            ) * limit,
            chain_tx_count(chain@.chain.subrange(0, i as int)) >= 0,
        decreases chain.chain@.len() - i,
    {
        proof {
            lemma_chain_tx_count_prefix(chain@.chain, i + 1);
            assert(chain@.chain.subrange(0, i + 1).drop_last() =~= chain@.chain.subrange(
                0,
                i as int,
            ));
            assert(chain@.chain.subrange(0, i + 1).last() == chain@.chain[i as int]);
        }
        let b = &chain.chain[i];
        let mut j: usize = 0;
        let ghost ts = b@.transactions;
        let ghost acc0: int = acc as int;
        while j < b.transactions.len()
            invariant
                limit == 0x8000_0000_0000_0000,
                ts == b@.transactions,
                j <= b.transactions@.len(),
                acc == acc0 + txs_balance(ts.subrange(0, j as int), addr@, exempt),
                -vstd::math::abs(acc0) - (j as int) * limit <= acc <= vstd::math::abs(acc0) + (j as int) * limit,
                vstd::math::abs(acc0) + ts.len() * limit <= i64::MAX * limit,
            decreases b.transactions@.len() - j,
        {
            let t = &b.transactions[j];
            let to_key = norm_addr(t.to.as_str());
            let from_key = norm_addr(t.from.as_str());
            let mut d: i128 = 0;
            if str_eq(to_key.as_str(), addr) {
                d = d + (t.amount as i128);
            }
            let is_coinbase = str_eq(t.from.as_str(), "coinbase");
            if str_eq(from_key.as_str(), addr) && !(exempt && is_coinbase) {
                d = d - (t.amount as i128);
            }
            proof {
                assert(d == tx_delta(ts[j as int], addr@, exempt));
                assert(ts.subrange(0, j + 1).drop_last() =~= ts.subrange(0, j as int));
                assert(ts.subrange(0, j + 1).last() == ts[j as int]);
            }
            acc = acc + d;
            j = j + 1;
        }
        proof {
            assert(ts.subrange(0, ts.len() as int) =~= ts);
        }
        i = i + 1;
    }
    proof {
        assert(chain@.chain.subrange(0, chain@.chain.len() as int) =~= chain@.chain);
    }
    acc
}

/// A transaction count is never negative.
pub proof fn lemma_chain_tx_count_nonneg(bs: Seq<BlockModel>)
    ensures
        chain_tx_count(bs) >= 0,
    decreases bs.len(),
{
    if bs.len() > 0 {
        lemma_chain_tx_count_nonneg(bs.drop_last());
    }
}

/// Transaction counts of chain prefixes stay within the whole chain's count.
pub proof fn lemma_chain_tx_count_prefix(bs: Seq<BlockModel>, i: int)
    requires
        0 <= i <= bs.len(),
    ensures
        0 <= chain_tx_count(bs.subrange(0, i)) <= chain_tx_count(bs),
    decreases bs.len() - i,
{
    lemma_chain_tx_count_nonneg(bs.subrange(0, i));
    if i == bs.len() {
        assert(bs.subrange(0, i) =~= bs);
    } else {
        lemma_chain_tx_count_prefix(bs, i + 1);
        assert(bs.subrange(0, i + 1).drop_last() =~= bs.subrange(0, i));
        assert(chain_tx_count(bs.subrange(0, i + 1)) == chain_tx_count(bs.subrange(0, i))
            + bs.subrange(0, i + 1).last().transactions.len());
    }
}

} // verus!
