//! The data model: transactions, blocks and the blockchain, together with
//! their mathematical views.

use vstd::prelude::*;

verus! {

/// A transfer of `amount` milli-units from `from` to `to`. The sender
/// `"coinbase"` is the reserved sentinel for block-reward issuance; such
/// records carry no signature. For all other records `signature` is the hex
/// ECDSA P-256 signature of the canonical preimage `"{from}|{to}|{amount}"`,
/// made with the key whose hex encoding is `pub_key` (or `from` itself for
/// legacy records with an empty `pub_key`).
#[derive(Debug, PartialEq, Eq)]
pub struct Transaction {
    pub from: String,
    pub pub_key: String,
    pub to: String,
    pub amount: i64,
    pub signature: String,
}

#[verifier::ext_equal]
pub ghost struct TransactionModel {
    pub from: Seq<char>,
    pub pub_key: Seq<char>,
    pub to: Seq<char>,
    pub amount: int,
    pub signature: Seq<char>,
}

impl View for Transaction {
    type V = TransactionModel;

    open spec fn view(&self) -> TransactionModel {
        TransactionModel {
            from: self.from@,
            pub_key: self.pub_key@,
            to: self.to@,
            amount: self.amount as int,
            signature: self.signature@,
        }
    }
}

impl Clone for Transaction {
    fn clone(&self) -> (r: Self)
        ensures
            r@ == self@,
    {
        Transaction {
            from: self.from.clone(),
            pub_key: self.pub_key.clone(),
            to: self.to.clone(),
            amount: self.amount,
            signature: self.signature.clone(),
        }
    }
}

/// One block of the chain. `timestamp` is a UTC instant in whole seconds
/// since the Unix epoch. `hash` is the lowercase hex digest computed by the
/// proof-of-work hasher over the header preimage, which covers `index`,
/// `timestamp`, `transactions`, `prev_hash` and `nonce` but neither `hash`
/// nor `difficulty`.
#[derive(Debug, PartialEq, Eq)]
pub struct Block {
    pub index: u64,
    pub timestamp: u64,
    pub transactions: Vec<Transaction>,
    pub prev_hash: String,
    pub hash: String,
    pub nonce: u32,
    pub difficulty: u32,
}

#[verifier::ext_equal]
pub ghost struct BlockModel {
    pub index: int,
    pub timestamp: int,
    pub transactions: Seq<TransactionModel>,
    pub prev_hash: Seq<char>,
    pub hash: Seq<char>,
    pub nonce: int,
    pub difficulty: int,
}

/// The views of a sequence of transactions.
pub open spec fn tx_views(s: Seq<Transaction>) -> Seq<TransactionModel> {
    Seq::new(s.len(), |i: int| s[i]@)
}

/// The views of a sequence of blocks.
pub open spec fn block_views(s: Seq<Block>) -> Seq<BlockModel> {
    Seq::new(s.len(), |i: int| s[i]@)
}

impl View for Block {
    type V = BlockModel;

    open spec fn view(&self) -> BlockModel {
        BlockModel {
            index: self.index as int,
            timestamp: self.timestamp as int,
            transactions: tx_views(self.transactions@),
            prev_hash: self.prev_hash@,
            hash: self.hash@,
            nonce: self.nonce as int,
            difficulty: self.difficulty as int,
        }
    }
}

impl Clone for Block {
    fn clone(&self) -> (r: Self)
        ensures
            r@ == self@,
    {
        let mut txs: Vec<Transaction> = Vec::new();
        let mut i: usize = 0;
        while i < self.transactions.len()
            invariant
                i <= self.transactions.len(),
                txs@.len() == i,
                forall|j: int| 0 <= j < i ==> txs@[j]@ == self.transactions@[j]@,
            decreases self.transactions.len() - i,
        {
            txs.push(self.transactions[i].clone());
            i = i + 1;
        }
        let r = Block {
            index: self.index,
            timestamp: self.timestamp,
            transactions: txs,
            prev_hash: self.prev_hash.clone(),
            hash: self.hash.clone(),
            nonce: self.nonce,
            difficulty: self.difficulty,
        };
        proof {
            assert(r@.transactions =~= self@.transactions);
        }
        r
    }
}

/// The ordered chain of blocks, rooted at the fixed genesis block, and the
/// block-time target that the difficulty oracle steers towards.
#[derive(Debug, PartialEq, Eq)]
pub struct Blockchain {
    pub chain: Vec<Block>,
    pub target_block_time: i64,
}

#[verifier::ext_equal]
pub ghost struct BlockchainModel {
    pub chain: Seq<BlockModel>,
    pub target_block_time: int,
}

impl View for Blockchain {
    type V = BlockchainModel;

    open spec fn view(&self) -> BlockchainModel {
        BlockchainModel {
            chain: block_views(self.chain@),
            target_block_time: self.target_block_time as int,
        }
    }
}

impl Clone for Blockchain {
    fn clone(&self) -> (r: Self)
        ensures
            r@ == self@,
    {
        let mut blocks: Vec<Block> = Vec::new();
        let mut i: usize = 0;
        while i < self.chain.len()
            invariant
                i <= self.chain.len(),
                blocks@.len() == i,
                forall|j: int| 0 <= j < i ==> blocks@[j]@ == self.chain@[j]@,
            decreases self.chain.len() - i,
        {
            blocks.push(self.chain[i].clone());
            i = i + 1;
        }
        let r = Blockchain { chain: blocks, target_block_time: self.target_block_time };
        proof {
            assert(r@.chain =~= self@.chain);
        }
        r
    }
}

} // verus!
