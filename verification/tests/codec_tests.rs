use owonero::model::Blockchain;
use owonero::hexfmt::{hex_encode, hex_decode};
use owonero::jsonenc::{block_preimage, block_to_json, tx_to_json, chain_to_json};
use owonero::jsonparse::{parse_block_json, parse_tx_json, parse_chain_json};
use owonero::model::{Block, Transaction};
use owonero::textfmt::{format_hashrate, format_duration};
use owonero::decfmt::u64_to_dec;
use owonero::config::Config;
use owonero::jsonparse::{config_to_json, parse_config_json};

fn sample_tx() -> Transaction {
    Transaction {
        from: "coinbase".to_string(),
        pub_key: "04ab".to_string(),
        to: "w\"ith \\ quotes\nand \u{00e9}".to_string(),
        amount: -12345,
        signature: String::new(),
    }
}

fn sample_block() -> Block {
    Block {
        index: 3,
        timestamp: 1760140860,
        transactions: vec![sample_tx()],
        prev_hash: "00aa".to_string(),
        hash: "bb11".to_string(),
        nonce: 42,
        difficulty: 2,
    }
}

#[test]
fn hex_round_trip_and_cross_check() {
    let bytes: Vec<u8> = vec![0, 1, 15, 16, 171, 255];
    let ours = hex_encode(&bytes);
    assert_eq!(ours, hex::encode(&bytes));
    assert_eq!(hex_decode(&ours).unwrap(), bytes);
    assert_eq!(hex_decode("00AB").unwrap(), vec![0u8, 171u8]);
    assert!(hex_decode("0").is_none());
    assert!(hex_decode("zz").is_none());
}

#[test]
fn preimage_is_exact_json_of_header_fields() {
    let b = Block {
        index: 0,
        timestamp: 1760140800,
        transactions: vec![Transaction {
            from: "genesis".to_string(),
            pub_key: String::new(),
            to: "network".to_string(),
            amount: 0,
            signature: String::new(),
        }],
        prev_hash: String::new(),
        hash: "ignored".to_string(),
        nonce: 0,
        difficulty: 1,
    };
    let pre = block_preimage(&b);
    let expected = "{\"index\":0,\"timestamp\":1760140800,\"transactions\":[{\"from\":\"genesis\",\"pub_key\":\"\",\"to\":\"network\",\"amount\":0,\"signature\":\"\"}],\"prev_hash\":\"\",\"nonce\":0}";
    assert_eq!(pre, expected.as_bytes().to_vec());
}

#[test]
fn documents_are_valid_json_for_a_standard_parser() {
    let b = sample_block();
    let doc = block_to_json(&b);
    let v: serde_json::Value = serde_json::from_slice(&doc).expect("valid JSON");
    assert_eq!(v["index"], serde_json::Value::from(3u64));
    assert_eq!(v["timestamp"], serde_json::Value::from(1760140860u64));
    assert_eq!(v["nonce"], serde_json::Value::from(42u64));
    assert_eq!(v["difficulty"], serde_json::Value::from(2u64));
    assert_eq!(v["prev_hash"], serde_json::Value::from("00aa"));
    assert_eq!(v["transactions"][0]["amount"], serde_json::Value::from(-12345i64));
    assert_eq!(
        v["transactions"][0]["to"],
        serde_json::Value::from("w\"ith \\ quotes\nand \u{00e9}")
    );
}

#[test]
fn tx_json_round_trip() {
    let t = sample_tx();
    let doc = tx_to_json(&t);
    let back = parse_tx_json(&doc).expect("round trip");
    assert_eq!(back, t);
}

#[test]
fn block_json_round_trip() {
    let b = sample_block();
    let doc = block_to_json(&b);
    let back = parse_block_json(&doc).expect("round trip");
    assert_eq!(back, b);
}

#[test]
fn chain_json_round_trip() {
    let mut bc = Blockchain::new();
    let mut second = sample_block();
    second.index = 1;
    second.prev_hash = bc.chain[0].hash.clone();
    bc.chain.push(second);
    let doc = chain_to_json(&bc);
    let back = parse_chain_json(&doc).expect("round trip");
    assert_eq!(back, bc);
    // Recomputed digests are identical because the structures are equal.
    assert_eq!(
        Blockchain::calculate_hash(&back.chain[1]),
        Blockchain::calculate_hash(&bc.chain[1])
    );
}

#[test]
fn parser_rejects_non_canonical_documents() {
    // Whitespace, reordered fields and trailing garbage are refused.
    assert!(parse_tx_json(&b"{ \"from\":\"a\"}".to_vec()).is_none());
    assert!(parse_tx_json(&b"".to_vec()).is_none());
    let t = sample_tx();
    let mut doc = tx_to_json(&t);
    doc.push(b' ');
    assert!(parse_tx_json(&doc).is_none());
}

#[test]
fn amount_extremes_round_trip() {
    let mut t = sample_tx();
    t.amount = i64::MIN;
    let doc = tx_to_json(&t);
    assert_eq!(parse_tx_json(&doc).unwrap().amount, i64::MIN);
    t.amount = i64::MAX;
    let doc = tx_to_json(&t);
    assert_eq!(parse_tx_json(&doc).unwrap().amount, i64::MAX);
}

#[test]
fn decimal_rendering_matches_expected() {
    assert_eq!(u64_to_dec(0), "0");
    assert_eq!(u64_to_dec(30), "30");
    assert_eq!(u64_to_dec(18446744073709551615), "18446744073709551615");
}

#[test]
fn hashrate_formatting_expected_values() {
    assert_eq!(format_hashrate(0), "0 H/s");
    assert_eq!(format_hashrate(999), "999 H/s");
    assert_eq!(format_hashrate(1500), "1.50 KH/s");
    assert_eq!(format_hashrate(2000000), "2.00 MH/s");
    assert_eq!(format_hashrate(1234567890), "1.23 GH/s");
}

#[test]
fn duration_formatting_expected_values() {
    assert_eq!(format_duration(59), "0:59");
    assert_eq!(format_duration(61), "1:01");
    assert_eq!(format_duration(3661), "1:01:01");
    assert_eq!(format_duration(7322), "2:02:02");
}

#[test]
fn config_json_round_trip() {
    let mut cfg = Config::default_with_wallet_path("/tmp/w.json".to_string());
    cfg.node_address = "127.0.0.1:1234".to_string();
    cfg.daemon_port = 1234;
    cfg.peers = vec!["a:1".to_string(), "b:2".to_string()];
    cfg.pool = true;
    cfg.auto_update = false;
    let doc = config_to_json(&cfg);
    let v: serde_json::Value = serde_json::from_slice(&doc).expect("valid JSON");
    assert_eq!(v["node_address"], serde_json::Value::from("127.0.0.1:1234"));
    assert_eq!(v["daemon_port"], serde_json::Value::from(1234u64));
    assert_eq!(v["peers"][1], serde_json::Value::from("b:2"));
    assert_eq!(v["auto_update"], serde_json::Value::from(false));
    assert_eq!(v["pool"], serde_json::Value::from(true));
    let back = parse_config_json(&doc).expect("round trip");
    assert_eq!(back, cfg);
    assert!(parse_config_json(&b"{}".to_vec()).is_none());
}
