use owonero::chain::{GENESIS_TIMESTAMP, hash_meets_difficulty, load_chain_document};
use owonero::jsonenc::chain_to_json;
use owonero::model::{Blockchain, Block, Transaction};

fn genesis_chain() -> Blockchain {
    Blockchain::new()
}

#[test]
fn genesis_only_chain() {
    let bc = genesis_chain();
    assert_eq!(bc.chain.len(), 1);
    let tip = &bc.chain[0];
    assert_eq!(tip.index, 0);
    assert_eq!(tip.prev_hash, "");
    assert_eq!(tip.timestamp, GENESIS_TIMESTAMP);
    assert_eq!(tip.timestamp, 1760140800);
    assert_eq!(tip.nonce, 0);
    assert_eq!(tip.difficulty, 1);
    assert_eq!(tip.transactions.len(), 1);
    let tx = &tip.transactions[0];
    assert_eq!(tx.from, "genesis");
    assert_eq!(tx.to, "network");
    assert_eq!(tx.amount, 0);
    assert_eq!(tx.signature, "");
    assert_eq!(tip.hash, Blockchain::calculate_hash(tip));
    assert_eq!(tip.hash.len(), 64);
}

#[test]
fn hash_determinism_across_calls() {
    let b1 = Blockchain::create_genesis_block();
    let b2 = Blockchain::create_genesis_block();
    assert_eq!(b1, b2);
    assert_eq!(Blockchain::calculate_hash(&b1), Blockchain::calculate_hash(&b2));
}

#[test]
fn hash_sensitivity_to_header_fields() {
    let base = Blockchain::create_genesis_block();
    let h0 = Blockchain::calculate_hash(&base);

    let mut b = base.clone();
    b.nonce = b.nonce.wrapping_add(1);
    assert_ne!(Blockchain::calculate_hash(&b), h0);

    let mut b = base.clone();
    b.index = 5;
    assert_ne!(Blockchain::calculate_hash(&b), h0);

    let mut b = base.clone();
    b.timestamp += 1;
    assert_ne!(Blockchain::calculate_hash(&b), h0);

    let mut b = base.clone();
    b.prev_hash = "00".to_string();
    assert_ne!(Blockchain::calculate_hash(&b), h0);

    let mut b = base.clone();
    b.transactions.push(Transaction {
        from: "x".to_string(),
        pub_key: String::new(),
        to: "y".to_string(),
        amount: 1,
        signature: String::new(),
    });
    assert_ne!(Blockchain::calculate_hash(&b), h0);
}

#[test]
fn preimage_excludes_hash_and_difficulty() {
    let base = Blockchain::create_genesis_block();
    let h0 = Blockchain::calculate_hash(&base);

    let mut b = base.clone();
    b.hash = "ffffffffffffffff".to_string();
    b.difficulty = 7;
    assert_eq!(Blockchain::calculate_hash(&b), h0);
}

#[test]
fn verify_chain_accepts_fresh_and_rejects_broken() {
    let bc = genesis_chain();
    assert!(bc.verify_chain().is_ok());

    let mut bad = genesis_chain();
    let mut second = Blockchain::create_genesis_block();
    second.index = 1;
    second.prev_hash = "0000".to_string();
    second.hash = Blockchain::calculate_hash(&second);
    bad.chain.push(second);
    assert!(bad.verify_chain().is_err());
}

#[test]
fn reject_prev_hash_mismatch() {
    let bc = genesis_chain();
    let mut candidate = Blockchain::create_genesis_block();
    candidate.index = 1;
    candidate.prev_hash = "0".repeat(64);
    candidate.hash = Blockchain::calculate_hash(&candidate);
    let reason = bc.validate_block_verbose(&candidate, 1, true).expect("must be rejected");
    assert!(reason.contains("PrevHash"));
    assert!(!bc.validate_block(&candidate, 1, true));
}

#[test]
fn reject_stale_index_even_if_otherwise_valid() {
    let bc = genesis_chain();
    // A candidate that links to the tip and recomputes its digest, but
    // repeats the tip's index instead of taking the next one.
    let mut candidate = bc.chain[0].clone();
    candidate.prev_hash = bc.chain[0].hash.clone();
    candidate.hash = Blockchain::calculate_hash(&candidate);
    let reason = bc.validate_block_verbose(&candidate, 1, true);
    assert!(reason.is_some());
    assert_eq!(reason.unwrap(), "Index mismatch: expected 1 got 0");
}

#[test]
fn add_block_appends_valid_candidate() {
    let mut bc = genesis_chain();
    let tip_hash = bc.chain[0].hash.clone();
    let mut candidate = Block {
        index: 1,
        timestamp: GENESIS_TIMESTAMP + 30,
        transactions: vec![Transaction {
            from: "coinbase".to_string(),
            pub_key: String::new(),
            to: "w".to_string(),
            amount: 1000,
            signature: String::new(),
        }],
        prev_hash: tip_hash,
        hash: String::new(),
        nonce: 0,
        difficulty: 1,
    };
    candidate.hash = Blockchain::calculate_hash(&candidate);
    assert!(bc.add_block_skip_pow(candidate, 1, true));
    assert_eq!(bc.chain.len(), 2);
    assert!(bc.verify_chain().is_ok());
}

#[test]
fn difficulty_defaults_to_min_on_short_chains() {
    let bc = genesis_chain();
    assert_eq!(bc.get_dynamic_difficulty(), 1);
}

fn dummy_block(index: u64, timestamp: u64, difficulty: u32) -> Block {
    Block {
        index,
        timestamp,
        transactions: vec![],
        prev_hash: String::new(),
        hash: String::new(),
        nonce: 0,
        difficulty,
    }
}

#[test]
fn difficulty_clamps_at_seven() {
    // Twelve blocks mined instantly at difficulty seven: the step up is
    // clamped back to seven.
    let mut chain = Vec::new();
    for i in 0..12u64 {
        chain.push(dummy_block(i, 1000, 7));
    }
    let bc = Blockchain { chain, target_block_time: 30 };
    assert_eq!(bc.get_dynamic_difficulty(), 7);
}

#[test]
fn difficulty_clamps_at_one() {
    // Twelve blocks spaced far apart at difficulty one: the step down is
    // clamped back to one.
    let mut chain = Vec::new();
    for i in 0..12u64 {
        chain.push(dummy_block(i, 1000 * i, 1));
    }
    let bc = Blockchain { chain, target_block_time: 30 };
    assert_eq!(bc.get_dynamic_difficulty(), 1);
}

#[test]
fn difficulty_steps_up_and_down() {
    let mut fast = Vec::new();
    for i in 0..12u64 {
        fast.push(dummy_block(i, i, 3));
    }
    let bc = Blockchain { chain: fast, target_block_time: 30 };
    assert_eq!(bc.get_dynamic_difficulty(), 4);

    let mut slow = Vec::new();
    for i in 0..12u64 {
        slow.push(dummy_block(i, 1000 * i, 3));
    }
    let bc = Blockchain { chain: slow, target_block_time: 30 };
    assert_eq!(bc.get_dynamic_difficulty(), 2);
}

#[test]
fn difficulty_predicate_counts_leading_zero_digits() {
    assert!(hash_meets_difficulty("0abc", 1));
    assert!(!hash_meets_difficulty("a0bc", 1));
    assert!(hash_meets_difficulty("00ab", 2));
    assert!(!hash_meets_difficulty("0a0b", 2));
    assert!(hash_meets_difficulty("anything", 0));
}

#[test]
fn block_reward_is_constant_policy() {
    let bc = genesis_chain();
    assert_eq!(bc.get_block_reward(1), 1000);
    assert_eq!(bc.get_block_reward(1000000), 1000);
}

fn reward_block(bc: &Blockchain, to: &str, amount: i64, index: u64) -> Block {
    let mut b = Block {
        index,
        timestamp: GENESIS_TIMESTAMP + 30 * index,
        transactions: vec![Transaction {
            from: "coinbase".to_string(),
            pub_key: String::new(),
            to: to.to_string(),
            amount,
            signature: String::new(),
        }],
        prev_hash: bc.chain[bc.chain.len() - 1].hash.clone(),
        hash: String::new(),
        nonce: 0,
        difficulty: 1,
    };
    b.hash = Blockchain::calculate_hash(&b);
    b
}

#[test]
fn load_integrity_accepts_a_sound_chain() {
    let mut bc = Blockchain::new();
    assert!(bc.check_load_integrity().is_ok());
    let b = reward_block(&bc, "w", 100, 1);
    bc.chain.push(b);
    assert!(bc.check_load_integrity().is_ok());
}

#[test]
fn load_integrity_rejects_an_index_gap() {
    let mut bc = Blockchain::new();
    // Links and digest are right, but the index skips ahead: both the
    // linkage check and the load-time check refuse it.
    let b = reward_block(&bc, "w", 100, 5);
    bc.chain.push(b);
    let err = bc.verify_chain().unwrap_err();
    assert!(err.contains("index does not continue"));
    let err = bc.check_load_integrity().unwrap_err();
    assert!(err.contains("index"));
}

#[test]
fn load_integrity_rejects_a_wrong_genesis() {
    let mut bc = Blockchain::new();
    bc.chain[0].timestamp += 1;
    bc.chain[0].hash = Blockchain::calculate_hash(&bc.chain[0]);
    assert!(bc.check_load_integrity().is_err());
}

#[test]
fn load_integrity_rejects_a_bad_signature() {
    let mut bc = Blockchain::new();
    let mut b = reward_block(&bc, "w", 100, 1);
    b.transactions.push(Transaction {
        from: "somebody".to_string(),
        pub_key: String::new(),
        to: "w".to_string(),
        amount: 5,
        signature: "00".to_string(),
    });
    b.hash = Blockchain::calculate_hash(&b);
    bc.chain.push(b);
    let err = bc.check_load_integrity().unwrap_err();
    assert!(err.contains("signature"));
}

#[test]
fn recompute_hashes_ignores_stored_digests() {
    let mut bc = Blockchain::new();
    let b = reward_block(&bc, "w", 100, 1);
    bc.chain.push(b);
    // Corrupt the stored digest of the tip; loading recomputes it in
    // place, after which integrity holds again.
    bc.chain[1].hash = "f".repeat(64);
    assert!(bc.check_load_integrity().is_err());
    bc.recompute_hashes();
    assert_eq!(bc.chain[1].hash, Blockchain::calculate_hash(&bc.chain[1]));
    assert!(bc.check_load_integrity().is_ok());
}

#[test]
fn load_document_round_trips_and_inserts_genesis() {
    let mut bc = Blockchain::new();
    bc.chain.push(reward_block(&bc, "w", 100, 1));
    let doc = chain_to_json(&bc);
    let loaded = load_chain_document(&doc).expect("a saved chain loads");
    assert_eq!(loaded, bc);

    // A corrupted stored digest is recomputed in place, not rejected.
    let mut tampered = bc.clone();
    tampered.chain[1].hash = "f".repeat(64);
    let doc = chain_to_json(&tampered);
    let loaded = load_chain_document(&doc).expect("digests are recomputed defensively");
    assert_eq!(loaded, bc);

    // An empty persisted chain comes back as the genesis chain.
    let empty = Blockchain { chain: vec![], target_block_time: 30 };
    let doc = chain_to_json(&empty);
    let loaded = load_chain_document(&doc).expect("empty chain becomes genesis");
    assert_eq!(loaded, Blockchain::new());

    // A chain breaking the invariants is refused.
    let mut gap = Blockchain::new();
    gap.chain.push(reward_block(&gap, "w", 100, 7));
    let doc = chain_to_json(&gap);
    assert!(load_chain_document(&doc).is_err());

    assert!(load_chain_document(&b"not a document".to_vec()).is_err());
}
