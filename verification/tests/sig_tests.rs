use owonero::model::Transaction;
use owonero::sig::{sign_transaction, verify_transaction_signature};
use owonero::wallet::Wallet;

#[test]
fn sign_verify_round_trip() {
    let w = Wallet::new().expect("key generation");
    assert_eq!(w.address, w.pub_key);
    assert!(!w.pub_key.is_empty());
    let tx = w.create_signed_transaction("dest", 250).expect("signing");
    assert_eq!(tx.from, w.address);
    assert_eq!(tx.pub_key, w.pub_key);
    assert_eq!(tx.to, "dest");
    assert_eq!(tx.amount, 250);
    assert!(verify_transaction_signature(&tx, &tx.pub_key));
}

#[test]
fn verify_fails_under_another_key() {
    let w1 = Wallet::new().expect("key generation");
    let w2 = Wallet::new().expect("key generation");
    let tx = w1.create_signed_transaction("dest", 250).expect("signing");
    assert!(!verify_transaction_signature(&tx, &w2.pub_key));
}

#[test]
fn verify_fails_on_tampered_fields() {
    let w = Wallet::new().expect("key generation");
    let tx = w.create_signed_transaction("dest", 250).expect("signing");

    let mut t = tx.clone();
    t.amount = 251;
    assert!(!verify_transaction_signature(&t, &t.pub_key));

    let mut t = tx.clone();
    t.to = "elsewhere".to_string();
    assert!(!verify_transaction_signature(&t, &t.pub_key));

    let mut t = tx.clone();
    t.signature = "00".to_string();
    assert!(!verify_transaction_signature(&t, &t.pub_key));
}

#[test]
fn legacy_records_fall_back_to_sender_key() {
    let w = Wallet::new().expect("key generation");
    let mut t = Transaction {
        from: w.pub_key.clone(),
        pub_key: String::new(),
        to: "dest".to_string(),
        amount: 10,
        signature: String::new(),
    };
    sign_transaction(&mut t, &w.priv_key).expect("signing");
    // An empty key string makes verification read the sender field as the
    // hex public key.
    assert!(verify_transaction_signature(&t, ""));
    assert!(verify_transaction_signature(&t, &t.pub_key));
}

#[test]
fn malformed_hex_never_verifies() {
    let t = Transaction {
        from: "nothex".to_string(),
        pub_key: String::new(),
        to: "dest".to_string(),
        amount: 10,
        signature: "zz".to_string(),
    };
    assert!(!verify_transaction_signature(&t, ""));
    assert!(!verify_transaction_signature(&t, "abc"));
}

#[test]
fn signing_with_bad_private_key_fails_cleanly() {
    let mut t = Transaction {
        from: "a".to_string(),
        pub_key: String::new(),
        to: "b".to_string(),
        amount: 1,
        signature: String::new(),
    };
    assert!(sign_transaction(&mut t, "not-hex").is_err());
    assert_eq!(t.signature, "");
    assert!(sign_transaction(&mut t, "00aabb").is_err());
    assert_eq!(t.signature, "");
}
