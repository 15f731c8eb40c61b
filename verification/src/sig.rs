//! Transaction signing and verification: ECDSA P-256 with SHA-256 in fixed
//! signature format, over the canonical preimage `"{from}|{to}|{amount}"`.
//! The curve operations come from the `ring` crate behind trusted wrappers;
//! everything around them — hex handling, preimage construction, the key
//! fallback rule — is verified.

use vstd::prelude::*;
use vstd::string::*;
use vstd::utf8::encode_utf8;
use crate::decfmt::{dec_bytes_i64, push_dec_i64};
use crate::hexfmt::{hex_of_bytes, hex_bytes_of, all_hex_chars, hex_encode, hex_decode};
use crate::model::{Transaction, TransactionModel};

verus! {

/// Whether ECDSA P-256/SHA-256 fixed-format verification accepts `sig` as a
/// signature of `msg` under the public key bytes `pub_key`. Verification is
/// a pure function of the three byte strings.
pub uninterp spec fn p256_verify_ok(pub_key: Seq<u8>, msg: Seq<u8>, sig: Seq<u8>) -> bool;

/// The public key embedded in a PKCS#8 P-256 signing key document.
pub uninterp spec fn p256_pubkey_of_pkcs8(doc: Seq<u8>) -> Seq<u8>;

/// Relies on `ring::signature::UnparsedPublicKey::verify` with
/// `ECDSA_P256_SHA256_FIXED`: acceptance depends on the key, message and
/// signature bytes alone.
#[verifier::external_body]
fn p256_verify(pub_key: &Vec<u8>, msg: &Vec<u8>, sig: &Vec<u8>) -> (r: bool)
    ensures
        r == p256_verify_ok(pub_key@, msg@, sig@),
{
    let key = ring::signature::UnparsedPublicKey::new(
        &ring::signature::ECDSA_P256_SHA256_FIXED,
        pub_key.as_slice(),
    );
    key.verify(msg.as_slice(), sig.as_slice()).is_ok()
}

/// Relies on `ring::signature::EcdsaKeyPair::from_pkcs8` and `sign` with
/// `ECDSA_P256_SHA256_FIXED_SIGNING`: a signature it produces over `msg`
/// verifies under the key pair's public key. The signature bytes themselves
/// are randomized, so nothing more is stated of them.
#[verifier::external_body]
fn p256_sign(pkcs8: &Vec<u8>, msg: &Vec<u8>) -> (r: Option<Vec<u8>>)
    ensures
        r is Some ==> p256_verify_ok(p256_pubkey_of_pkcs8(pkcs8@), msg@, r->Some_0@),
{
    let rng = ring::rand::SystemRandom::new();
    let alg = &ring::signature::ECDSA_P256_SHA256_FIXED_SIGNING;
    let key_pair = ring::signature::EcdsaKeyPair::from_pkcs8(alg, pkcs8.as_slice(), &rng).ok()?;
    let sig = key_pair.sign(&rng, msg.as_slice()).ok()?;
    Some(sig.as_ref().to_vec())
}

/// Relies on `ring::signature::EcdsaKeyPair::generate_pkcs8`, `from_pkcs8`
/// and `KeyPair::public_key`: the returned public key bytes are the ones
/// embedded in the returned PKCS#8 document, 65 bytes in the uncompressed
/// point encoding. The document itself is random.
#[verifier::external_body]
fn p256_generate() -> (r: Option<(Vec<u8>, Vec<u8>)>)
    ensures
        r is Some ==> r->Some_0.1@ == p256_pubkey_of_pkcs8(r->Some_0.0@),
        r is Some ==> r->Some_0.1@.len() == 65,
{
    let rng = ring::rand::SystemRandom::new();
    let alg = &ring::signature::ECDSA_P256_SHA256_FIXED_SIGNING;
    let doc = ring::signature::EcdsaKeyPair::generate_pkcs8(alg, &rng).ok()?;
    let key_pair = ring::signature::EcdsaKeyPair::from_pkcs8(alg, doc.as_ref(), &rng).ok()?;
    let pub_key = ring::signature::KeyPair::public_key(&key_pair).as_ref().to_vec();
    Some((doc.as_ref().to_vec(), pub_key))
}

/// Generate a fresh P-256 key pair: the hex-encodable PKCS#8 document and
/// the matching raw public key bytes.
pub fn generate_keypair() -> (r: Option<(Vec<u8>, Vec<u8>)>)
    ensures
        r is Some ==> r->Some_0.1@ == p256_pubkey_of_pkcs8(r->Some_0.0@),
        r is Some ==> r->Some_0.1@.len() == 65,
{
    p256_generate()
}

/// The canonical signing preimage `"{from}|{to}|{amount}"`, as UTF-8 bytes.
pub open spec fn tx_preimage(from: Seq<char>, to: Seq<char>, amount: int) -> Seq<u8> {
    encode_utf8(from) + seq![124u8] + encode_utf8(to) + seq![124u8] + dec_bytes_i64(amount)
}

/// Build the signing preimage of a transaction.
pub fn tx_message(from: &str, to: &str, amount: i64) -> (r: Vec<u8>)
    ensures
        r@ =~= tx_preimage(from@, to@, amount as int),
{
    let mut out: Vec<u8> = Vec::new();
    let mut fb = from.as_bytes_vec();
    out.append(&mut fb);
    out.push(124);
    let mut tb = to.as_bytes_vec();
    out.append(&mut tb);
    out.push(124);
    push_dec_i64(&mut out, amount);
    out
}

/// A hex string holding well-formed hex: even length, hex digits only.
pub open spec fn is_hex_seq(s: Seq<char>) -> bool {
    s.len() % 2 == 0 && all_hex_chars(s)
}

/// Whether a transaction's signature verifies against the given hex key,
/// with the legacy fallback: an empty key string means the sender field
/// itself is the hex public key. Any malformed hex yields `false`.
pub open spec fn tx_sig_valid_with_key(t: TransactionModel, key_hex: Seq<char>) -> bool {
    let kh = if key_hex.len() == 0 {
        t.from
    } else {
        key_hex
    };
    is_hex_seq(kh) && is_hex_seq(t.signature) && p256_verify_ok(
        hex_bytes_of(kh),
        tx_preimage(t.from, t.to, t.amount),
        hex_bytes_of(t.signature),
    )
}

/// Whether a transaction's signature verifies against its own key material.
pub open spec fn tx_sig_valid(t: TransactionModel) -> bool {
    tx_sig_valid_with_key(t, t.pub_key)
}

/// Verify a transaction signature against `pub_key_hex`, falling back to
/// `tx.from` when the key string is empty. Decoding failures yield `false`.
pub fn verify_transaction_signature(tx: &Transaction, pub_key_hex: &str) -> (r: bool)
    ensures
        r == tx_sig_valid_with_key(tx@, pub_key_hex@),
{
    let key_hex: &str = if pub_key_hex.is_empty() {
        tx.from.as_str()
    } else {
        pub_key_hex
    };
    let key_bytes = match hex_decode(key_hex) {
        Some(b) => b,
        None => {
            return false;
        },
    };
    let sig_bytes = match hex_decode(tx.signature.as_str()) {
        Some(b) => b,
        None => {
            return false;
        },
    };
    let msg = tx_message(tx.from.as_str(), tx.to.as_str(), tx.amount);
    p256_verify(&key_bytes, &msg, &sig_bytes)
}

/// Sign a transaction in place with the hex-encoded PKCS#8 private key.
/// On success only the signature field changes, and the new signature
/// verifies under the public key embedded in the private key document.
pub fn sign_transaction(tx: &mut Transaction, priv_key_hex: &str) -> (r: Result<(), String>)
    ensures
        r is Err ==> final(tx)@ == old(tx)@,
        !is_hex_seq(priv_key_hex@) ==> r is Err,
        r is Ok ==> {
            &&& is_hex_seq(priv_key_hex@)
            &&& final(tx)@.from == old(tx)@.from
            &&& final(tx)@.pub_key == old(tx)@.pub_key
            &&& final(tx)@.to == old(tx)@.to
            &&& final(tx)@.amount == old(tx)@.amount
            &&& is_hex_seq(final(tx)@.signature)
            &&& p256_verify_ok(
                p256_pubkey_of_pkcs8(hex_bytes_of(priv_key_hex@)),
                tx_preimage(old(tx)@.from, old(tx)@.to, old(tx)@.amount),
                hex_bytes_of(final(tx)@.signature),
            )
        },
{
    let priv_key_bytes = match hex_decode(priv_key_hex) {
        Some(b) => b,
        None => {
            return Err("Invalid private key hex".to_owned());
        },
    };
    let msg = tx_message(tx.from.as_str(), tx.to.as_str(), tx.amount);
    match p256_sign(&priv_key_bytes, &msg) {
        Some(sig) => {
            tx.signature = hex_encode(&sig);
            proof {
                crate::hexfmt::lemma_hex_round_trip(sig@);
            }
            Ok(())
        },
        None => Err("Failed to sign transaction".to_owned()),
    }
}

/// A freshly made signature that verifies under a key pair's public key
/// also passes transaction verification against the hex of that public key:
/// the sign/verify round trip.
pub proof fn lemma_sign_verify_round_trip(t: TransactionModel, doc: Seq<u8>)
    requires
        t.pub_key == hex_of_bytes(p256_pubkey_of_pkcs8(doc)),
        t.pub_key.len() > 0,
        is_hex_seq(t.signature),
        p256_verify_ok(
            p256_pubkey_of_pkcs8(doc),
            tx_preimage(t.from, t.to, t.amount),
            hex_bytes_of(t.signature),
        ),
    ensures
        tx_sig_valid(t),
{
    crate::hexfmt::lemma_hex_round_trip(p256_pubkey_of_pkcs8(doc));
    assert(hex_bytes_of(t.pub_key) =~= p256_pubkey_of_pkcs8(doc));
}

} // verus!
