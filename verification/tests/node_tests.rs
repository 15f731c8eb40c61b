use owonero::chain::GENESIS_TIMESTAMP;
use owonero::model::Blockchain;
use owonero::jsonenc::{block_to_json, tx_to_json, txs_to_json, chain_to_json};
use owonero::jsonparse::{parse_chain_json, stats_report_to_json};
use owonero::mining::{mine_block_with_cancel, build_coinbase};
use owonero::model::{Block, Transaction};
use owonero::node::{NodeState, greeting_line, command_needs_body};
use owonero::wallet::Wallet;

fn fresh_node() -> NodeState {
    NodeState::new(Blockchain::new())
}

fn funded_node(w: &Wallet, amount: i64) -> NodeState {
    let mut bc = Blockchain::new();
    let mut block = Block {
        index: 1,
        timestamp: GENESIS_TIMESTAMP + 30,
        transactions: vec![Transaction {
            from: "coinbase".to_string(),
            pub_key: String::new(),
            to: w.address.clone(),
            amount,
            signature: String::new(),
        }],
        prev_hash: bc.chain[0].hash.clone(),
        hash: String::new(),
        nonce: 0,
        difficulty: 1,
    };
    block.hash = Blockchain::calculate_hash(&block);
    assert!(bc.add_block_skip_pow(block, 1, true));
    NodeState::new(bc)
}

#[test]
fn unknown_command_yields_exact_line() {
    let mut node = fresh_node();
    let (resp, changed) = node.process_command("flibbertigibbet", None, 0);
    assert_eq!(resp, b"unknown command\n".to_vec());
    assert!(!changed);
    // The processor answers the next command as usual: the connection
    // survives an unknown command.
    let (resp2, _) = node.process_command("getheight", None, 0);
    assert_eq!(resp2, b"0\n".to_vec());
}

#[test]
fn greeting_names_the_height() {
    let node = fresh_node();
    assert_eq!(greeting_line(&node.blockchain), b"owonero-daemon height=0\n".to_vec());
}

#[test]
fn body_commands_are_recognized() {
    assert!(command_needs_body("submitblock"));
    assert!(command_needs_body("submittx"));
    assert!(command_needs_body("submitshare"));
    assert!(command_needs_body("updatestats"));
    assert!(!command_needs_body("getchain"));
    assert!(!command_needs_body("getblock 3"));
    // Without an inline argument these two take it on the next line.
    assert!(command_needs_body("getblock"));
    assert!(command_needs_body("getwallethashrate"));
    assert!(!command_needs_body("getwallethashrate w"));
}

#[test]
fn query_commands_answer_documents() {
    let mut node = fresh_node();
    let (chain_resp, _) = node.process_command("getchain", None, 0);
    let mut expected = chain_to_json(&node.blockchain);
    expected.push(b'\n');
    assert_eq!(chain_resp, expected);

    let (latest, _) = node.process_command("getlatest", None, 0);
    let mut expected = block_to_json(&node.blockchain.chain[0]);
    expected.push(b'\n');
    assert_eq!(latest, expected);

    let (height, _) = node.process_command("getheight", None, 0);
    assert_eq!(height, b"0\n".to_vec());

    let (mp, _) = node.process_command("getmempool", None, 0);
    assert_eq!(mp, b"[]\n".to_vec());

    let (peers, _) = node.process_command("getpeers", None, 0);
    assert_eq!(peers, b"[]\n".to_vec());

    let (blk, _) = node.process_command("getblock 0", None, 0);
    let mut expected = block_to_json(&node.blockchain.chain[0]);
    expected.push(b'\n');
    assert_eq!(blk, expected);

    let (missing, _) = node.process_command("getblock 7", None, 0);
    assert_eq!(missing, b"error: block not found\n".to_vec());

    let (garbled, _) = node.process_command("getblock x", None, 0);
    assert_eq!(garbled, b"error: block not found\n".to_vec());

    // A non-canonical decimal is refused too.
    let (padded, _) = node.process_command("getblock 00", None, 0);
    assert_eq!(padded, b"error: block not found\n".to_vec());
    let (no_arg, _) = node.process_command("getblock", None, 0);
    assert_eq!(no_arg, b"error: block not found\n".to_vec());

    // The index may stand on the follow-up line instead.
    let (blk2, _) = node.process_command("getblock", Some(&b"0".to_vec()), 0);
    let mut expected = block_to_json(&node.blockchain.chain[0]);
    expected.push(b'\n');
    assert_eq!(blk2, expected);
}

#[test]
fn insufficient_funds_after_pending_spend() {
    let w = Wallet::new().expect("wallet");
    let mut node = funded_node(&w, 100);

    let tx1 = w.create_signed_transaction("dest", 60).expect("signing");
    let tx2 = w.create_signed_transaction("dest", 60).expect("signing");
    let b1 = tx_to_json(&tx1);
    let b2 = tx_to_json(&tx2);

    let (r1, _) = node.process_command("submittx", Some(&b1), 0);
    assert_eq!(r1, b"ok\n".to_vec());
    let (r2, _) = node.process_command("submittx", Some(&b2), 0);
    assert_eq!(r2, b"rejected: insufficient funds\n".to_vec());

    let (mp, _) = node.process_command("getmempool", None, 0);
    let mut expected = txs_to_json(&vec![tx1]);
    expected.push(b'\n');
    assert_eq!(mp, expected);
}

#[test]
fn invalid_submissions_are_rejected_with_reasons() {
    let w = Wallet::new().expect("wallet");
    let mut node = funded_node(&w, 100);

    let mut forged = w.create_signed_transaction("dest", 10).expect("signing");
    forged.amount = 20;
    let body = tx_to_json(&forged);
    let (r, _) = node.process_command("submittx", Some(&body), 0);
    assert_eq!(r, b"rejected: invalid signature\n".to_vec());

    let (r, _) = node.process_command("submittx", Some(&b"not json".to_vec()), 0);
    assert_eq!(r, b"rejected: failed to parse transaction\n".to_vec());

    let (r, _) = node.process_command("submittx", None, 0);
    assert_eq!(r, b"rejected: missing body\n".to_vec());
}

#[test]
fn mempool_idempotence_through_block_acceptance() {
    let w = Wallet::new().expect("wallet");
    let mut node = funded_node(&w, 100);

    let tx = w.create_signed_transaction("dest", 60).expect("signing");
    let body = tx_to_json(&tx);
    let (r1, _) = node.process_command("submittx", Some(&body), 0);
    assert_eq!(r1, b"ok\n".to_vec());
    // The same transaction again: accepted, but only one copy stays.
    let (r2, _) = node.process_command("submittx", Some(&body), 0);
    assert_eq!(r2, b"ok\n".to_vec());
    assert_eq!(node.mempool.transactions.len(), 1);

    // Mine a block carrying the transaction and submit it.
    let tip = node.blockchain.chain[node.blockchain.chain.len() - 1].clone();
    let coinbase = build_coinbase(&w.pub_key, &w.address, 1000, &w.priv_key);
    let mut attempts = 0u64;
    let block = mine_block_with_cancel(
        &tip,
        vec![coinbase, tx.clone()],
        1,
        GENESIS_TIMESTAMP + 60,
        0,
        4000,
        &mut attempts,
    )
    .expect("difficulty one");
    let block_body = block_to_json(&block);
    let (r3, changed) = node.process_command("submitblock", Some(&block_body), 0);
    assert_eq!(r3, b"ok\n".to_vec());
    assert!(changed);
    assert_eq!(node.blockchain.chain.len(), 3);
    // No pending copy of the included transaction survives.
    assert_eq!(node.mempool.transactions.len(), 0);
}

#[test]
fn stale_candidate_is_rejected_by_index() {
    let mut node = fresh_node();
    let dup = node.blockchain.chain[0].clone();
    let body = block_to_json(&dup);
    let (r, changed) = node.process_command("submitblock", Some(&body), 0);
    assert!(!changed);
    let text = String::from_utf8(r).unwrap();
    assert_eq!(text, "rejected: block index 0 already exists (current height 0)\n");
}

#[test]
fn prev_hash_mismatch_is_reported() {
    let mut node = fresh_node();
    let mut cand = Blockchain::create_genesis_block();
    cand.index = 1;
    cand.prev_hash = "0".repeat(64);
    cand.hash = Blockchain::calculate_hash(&cand);
    let body = block_to_json(&cand);
    let (r, changed) = node.process_command("submitblock", Some(&body), 0);
    assert!(!changed);
    let text = String::from_utf8(r).unwrap();
    assert!(text.starts_with("rejected: "));
    assert!(text.contains("PrevHash"));
}

#[test]
fn stats_staleness_evicts_after_ten_seconds() {
    let mut node = fresh_node();
    let t: u64 = 5000;
    let body = stats_report_to_json("walletw", 123, t);
    let (r, _) = node.process_command("updatestats", Some(&body), t);
    assert_eq!(r, b"ok\n".to_vec());

    let fresh_expected =
        format!("{{\"wallet\":\"walletw\",\"hashrate\":123,\"last_update\":{}}}\n", t)
            .into_bytes();
    let (fresh, _) = node.process_command("getwallethashrate walletw", None, t + 5);
    assert_eq!(fresh, fresh_expected);

    // The address may also come on the follow-up line.
    let (fresh2, _) = node.process_command("getwallethashrate", Some(&b"walletw".to_vec()), t + 5);
    assert_eq!(fresh2, fresh_expected);

    let (stale, _) = node.process_command("getwallethashrate walletw", None, t + 11);
    assert_eq!(
        String::from_utf8(stale).unwrap(),
        "{\"wallet\":\"walletw\",\"hashrate\":0,\"last_update\":0}\n"
    );

    let (net_fresh, _) = node.process_command("getnetworkhashrate", None, t + 5);
    assert_eq!(String::from_utf8(net_fresh).unwrap(), "{\"network_hashrate\":123}\n");
    let (net_stale, _) = node.process_command("getnetworkhashrate", None, t + 11);
    assert_eq!(String::from_utf8(net_stale).unwrap(), "{\"network_hashrate\":0}\n");
}

#[test]
fn save_then_load_round_trips_through_the_document() {
    let w = Wallet::new().expect("wallet");
    let node = funded_node(&w, 100);
    let doc = chain_to_json(&node.blockchain);
    let loaded = parse_chain_json(&doc).expect("canonical document loads");
    assert_eq!(loaded, node.blockchain);
    assert!(loaded.verify_chain().is_ok());
}

#[test]
fn submitshare_validates_at_share_difficulty() {
    let mut node = fresh_node();
    // A genuine share: a block mined at the pool's reduced difficulty.
    let tip = node.blockchain.chain[0].clone();
    let mut attempts = 0u64;
    let share_block = mine_block_with_cancel(
        &tip,
        vec![],
        1,
        GENESIS_TIMESTAMP + 5,
        0,
        4000,
        &mut attempts,
    )
    .expect("difficulty one");
    let body = owonero::jsonparse::share_to_json("walletw", share_block.nonce, attempts, &share_block);
    let (r, changed) = node.process_command("submitshare", Some(&body), 0);
    assert_eq!(r, b"ok\n".to_vec());
    assert!(!changed);
    // The share never extends the chain.
    assert_eq!(node.blockchain.chain.len(), 1);

    // A share whose digest does not recompute is refused.
    let mut forged = share_block.clone();
    forged.hash = "f".repeat(64);
    let body = owonero::jsonparse::share_to_json("walletw", forged.nonce, attempts, &forged);
    let (r2, _) = node.process_command("submitshare", Some(&body), 0);
    assert_eq!(r2, b"rejected: invalid share\n".to_vec());

    let (r3, _) = node.process_command("submitshare", Some(&b"junk".to_vec()), 0);
    assert_eq!(r3, b"rejected: failed to parse share\n".to_vec());
}

#[test]
fn peer_manager_deduplicates() {
    let mut node = fresh_node();
    node.peers.add_peer("a:1".to_string());
    node.peers.add_peer("b:2".to_string());
    node.peers.add_peer("a:1".to_string());
    assert_eq!(node.peers.get_peers(), vec!["a:1".to_string(), "b:2".to_string()]);
    let (r, _) = node.process_command("getpeers", None, 0);
    assert_eq!(String::from_utf8(r).unwrap(), "[\"a:1\",\"b:2\"]\n");
}

#[test]
fn config_validation_reports_first_violation() {
    let mut cfg = owonero::config::Config::default_with_wallet_path("wallet.json".to_string());
    assert!(cfg.validate().is_ok());
    cfg.web_port = cfg.daemon_port;
    assert_eq!(cfg.validate().unwrap_err(), "daemon_port and web_port must be different");
    cfg.web_port = cfg.daemon_port + 1;
    cfg.mining_threads = 0;
    assert_eq!(cfg.validate().unwrap_err(), "mining_threads must be at least 1");
    cfg.mining_threads = 2;
    cfg.mining_intensity = 101;
    assert_eq!(cfg.validate().unwrap_err(), "mining_intensity must be <= 100");
    assert_eq!(
        owonero::config::get_config_path("/home/u/.config"),
        "/home/u/.config/Owonero/config.json"
    );
}

#[test]
fn wallet_balance_sums_chain_case_insensitively() {
    let w = Wallet::new().expect("wallet");
    let mut bc = Blockchain::new();
    let upper = w.address.to_uppercase();
    let mut block = Block {
        index: 1,
        timestamp: GENESIS_TIMESTAMP + 30,
        transactions: vec![Transaction {
            from: "coinbase".to_string(),
            pub_key: String::new(),
            to: upper,
            amount: 77,
            signature: String::new(),
        }],
        prev_hash: bc.chain[0].hash.clone(),
        hash: String::new(),
        nonce: 0,
        difficulty: 1,
    };
    block.hash = Blockchain::calculate_hash(&block);
    assert!(bc.add_block_skip_pow(block, 1, true));
    assert_eq!(w.get_balance(&bc), 77);
}
