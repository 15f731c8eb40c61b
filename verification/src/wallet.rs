//! The wallet: a P-256 key pair whose hex public key is also the wallet's
//! address, balance computation over the chain, and transaction creation.

use vstd::prelude::*;
use vstd::string::*;
use crate::hexfmt::{hex_of_bytes, hex_bytes_of, hex_encode};
use crate::mempool::{norm, norm_addr, chain_balance, chain_tx_count, chain_balance_exec};
use crate::model::{Transaction, Blockchain};
use crate::sig::{p256_pubkey_of_pkcs8, generate_keypair, sign_transaction, tx_sig_valid,
    is_hex_seq, lemma_sign_verify_round_trip};

verus! {

/// A wallet on disk: the hex PKCS#8 private key document, the hex public
/// key, and the address, which is the public key hex itself. It may
/// remember the node it talks to.
#[derive(Debug, PartialEq, Eq)]
pub struct Wallet {
    pub address: String,
    pub pub_key: String,
    pub priv_key: String,
    pub node_address: Option<String>,
}

pub ghost struct WalletModel {
    pub address: Seq<char>,
    pub pub_key: Seq<char>,
    pub priv_key: Seq<char>,
    pub node_address: Option<Seq<char>>,
}

impl View for Wallet {
    type V = WalletModel;

    open spec fn view(&self) -> WalletModel {
        WalletModel {
            address: self.address@,
            pub_key: self.pub_key@,
            priv_key: self.priv_key@,
            node_address: match self.node_address {
                Some(ref s) => Some(s@),
                None => None,
            },
        }
    }
}

impl Clone for Wallet {
    fn clone(&self) -> (r: Self)
        ensures
            r@ == self@,
    {
        Wallet {
            address: self.address.clone(),
            pub_key: self.pub_key.clone(),
            priv_key: self.priv_key.clone(),
            node_address: match self.node_address {
                Some(ref s) => Some(s.clone()),
                None => None,
            },
        }
    }
}

/// The key material is coherent: the private key is well-formed hex, the
/// public key is the hex of the key embedded in it, and the address is the
/// public key.
pub open spec fn wallet_keys_consistent(w: WalletModel) -> bool {
    &&& is_hex_seq(w.priv_key)
    &&& w.pub_key == hex_of_bytes(p256_pubkey_of_pkcs8(hex_bytes_of(w.priv_key)))
    &&& w.address == w.pub_key
    &&& w.pub_key.len() > 0
}

/// A value clamped into the signed 64-bit range.
pub open spec fn clamp_i64(v: int) -> int {
    if v > i64::MAX {
        i64::MAX as int
    } else if v < i64::MIN {
        i64::MIN as int
    } else {
        v
    }
}

impl Wallet {
    /// Generate a fresh wallet: new keys, the public key hex as address,
    /// no remembered node.
    pub fn new() -> (r: Result<Wallet, String>)
        ensures
            r is Ok ==> wallet_keys_consistent(r->Ok_0@) && r->Ok_0@.node_address is None,
    {
        match generate_keypair() {
            Some((doc, pub_bytes)) => {
                let priv_hex = hex_encode(&doc);
                let pub_hex = hex_encode(&pub_bytes);
                let address = pub_hex.clone();
                proof {
                    crate::hexfmt::lemma_hex_round_trip(doc@);
                }
                Ok(Wallet { address, pub_key: pub_hex, priv_key: priv_hex, node_address: None })
            },
            None => Err("Failed to generate key pair".to_owned()),
        }
    }

    /// The wallet's on-chain balance: credits to its address minus debits
    /// from it, compared case-insensitively on the trimmed strings, capped
    /// into the 64-bit range.
    pub fn get_balance(&self, blockchain: &Blockchain) -> (r: i64)
        requires
            chain_tx_count(blockchain@.chain) <= i64::MAX,
        ensures
            r == clamp_i64(chain_balance(blockchain@.chain, norm(self@.address), false)),
    {
        let addr = norm_addr(self.address.as_str());
        let bal = chain_balance_exec(blockchain, addr.as_str(), false);
        if bal > i64::MAX as i128 {
            i64::MAX
        } else if bal < i64::MIN as i128 {
            i64::MIN
        } else {
            bal as i64
        }
    }

    /// Create and sign a transfer from this wallet. On success the record
    /// carries the wallet's address and key, and — when the wallet's key
    /// material is coherent — its signature verifies: the sign/verify
    /// round trip.
    pub fn create_signed_transaction(&self, to: &str, amount: i64) -> (r: Result<
        Transaction,
        String,
    >)
        ensures
            r is Ok ==> {
                &&& r->Ok_0@.from == self@.address
                &&& r->Ok_0@.pub_key == self@.pub_key
                &&& r->Ok_0@.to == to@
                &&& r->Ok_0@.amount == amount as int
                &&& wallet_keys_consistent(self@) ==> tx_sig_valid(r->Ok_0@)
            },
    {
        let mut tx = Transaction {
            from: self.address.clone(),
            pub_key: self.pub_key.clone(),
            to: to.to_owned(),
            amount,
            signature: String::new(),
        };
        match sign_transaction(&mut tx, self.priv_key.as_str()) {
            Ok(()) => {
                proof {
                    if wallet_keys_consistent(self@) {
                        lemma_sign_verify_round_trip(tx@, hex_bytes_of(self@.priv_key));
                    }
                }
                Ok(tx)
            },
            Err(e) => Err(e),
        }
    }
}

} // verus!
