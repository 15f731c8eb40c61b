use owonero::chain::{GENESIS_TIMESTAMP, hash_meets_difficulty};
use owonero::model::Blockchain;
use owonero::mining::{mine_block, mine_block_with_cancel, build_coinbase, classify_submit_response,
    SubmitOutcome, share_difficulty, candidate_is_stale, build_template, splice_template_txs,
    advance_template};

#[test]
fn mine_one_block_at_difficulty_one() {
    let bc = Blockchain::new();
    let genesis = &bc.chain[0];
    let wallet_address = "0xAAAA000000000000000000000000000000000000";
    let coinbase = build_coinbase("", wallet_address, 1000, "");
    assert_eq!(coinbase.from, "coinbase");
    assert_eq!(coinbase.to, wallet_address);
    assert_eq!(coinbase.amount, 1000);

    let mut attempts: u64 = 0;
    let block = mine_block_with_cancel(
        genesis,
        vec![coinbase],
        1,
        GENESIS_TIMESTAMP + 30,
        0,
        4000,
        &mut attempts,
    )
    .expect("a difficulty-one block is found well within the budget");

    assert_eq!(block.index, 1);
    assert_eq!(block.prev_hash, genesis.hash);
    assert_eq!(block.difficulty, 1);
    assert!(block.hash.starts_with('0'));
    assert!(hash_meets_difficulty(&block.hash, 1));
    assert_eq!(block.hash, Blockchain::calculate_hash(&block));
    assert_eq!(block.transactions[0].from, "coinbase");
    assert_eq!(block.transactions[0].to, wallet_address);
    assert!(attempts >= 1);
    assert_eq!(attempts, (block.nonce as u64) + 1);

    // The mined block extends the chain.
    let mut bc = bc;
    assert!(bc.add_block(block, 1));
    assert_eq!(bc.chain.len(), 2);
    assert!(bc.verify_chain().is_ok());
}

#[test]
fn bounded_search_stops_and_accounts_attempts() {
    // A worker polling its cancellation epoch hands the search a small
    // budget; on exhaustion it gets its attempt count back and rebuilds
    // the template on the new tip.
    let bc = Blockchain::new();
    let tip_a = &bc.chain[0];
    let mut attempts: u64 = 0;
    let r = mine_block_with_cancel(tip_a, vec![], 5, GENESIS_TIMESTAMP + 1, 0, 2, &mut attempts);
    match r {
        None => assert_eq!(attempts, 2),
        Some(b) => {
            // Finding a difficulty-five block in two attempts is all but
            // impossible, but were it to happen it must be genuine.
            assert!(hash_meets_difficulty(&b.hash, 5));
        },
    }

    // The next template is built on the updated tip.
    let mut tip_b = Blockchain::create_genesis_block();
    tip_b.index = 1;
    tip_b.nonce = 7;
    tip_b.hash = Blockchain::calculate_hash(&tip_b);
    let mut attempts2: u64 = 0;
    let r2 = mine_block_with_cancel(
        &tip_b,
        vec![],
        1,
        GENESIS_TIMESTAMP + 2,
        0,
        4000,
        &mut attempts2,
    );
    let b2 = r2.expect("difficulty one block");
    assert_eq!(b2.prev_hash, tip_b.hash);
    assert_eq!(b2.index, 2);
}

#[test]
fn nonce_search_resumes_from_start_nonce() {
    let bc = Blockchain::new();
    let genesis = &bc.chain[0];
    let mut attempts: u64 = 0;
    if let Some(b) = mine_block_with_cancel(
        genesis,
        vec![],
        1,
        GENESIS_TIMESTAMP + 30,
        500,
        4000,
        &mut attempts,
    ) {
        assert!(b.nonce >= 500);
        assert_eq!(attempts, (b.nonce as u64) - 500 + 1);
    } else {
        panic!("difficulty one should be met within the budget");
    }
}

#[test]
fn submit_responses_are_classified() {
    assert_eq!(classify_submit_response("ok"), SubmitOutcome::Accepted);
    assert_eq!(
        classify_submit_response("rejected: PrevHash mismatch: expected a got b"),
        SubmitOutcome::StalePrevHash
    );
    assert_eq!(
        classify_submit_response("rejected: prev_hash stale"),
        SubmitOutcome::StalePrevHash
    );
    assert_eq!(
        classify_submit_response("rejected: PoW check failed"),
        SubmitOutcome::RejectedOther
    );
    assert_eq!(classify_submit_response("ok "), SubmitOutcome::RejectedOther);
}

#[test]
fn blocking_search_finds_an_easy_block() {
    let bc = Blockchain::new();
    let genesis = &bc.chain[0];
    let mut attempts: u64 = 0;
    let b = mine_block(genesis, vec![], 1, GENESIS_TIMESTAMP + 30, &mut attempts)
        .expect("difficulty one is found");
    assert_eq!(b.index, 1);
    assert_eq!(b.prev_hash, genesis.hash);
    assert!(hash_meets_difficulty(&b.hash, 1));
}

#[test]
fn share_difficulty_lowers_and_clamps() {
    assert_eq!(share_difficulty(7), 5);
    assert_eq!(share_difficulty(3), 1);
    assert_eq!(share_difficulty(2), 1);
    assert_eq!(share_difficulty(1), 1);
    assert_eq!(share_difficulty(0), 1);
}

#[test]
fn staleness_compares_the_tip_digest() {
    let tip_a = Blockchain::create_genesis_block();
    let mut tip_b = Blockchain::create_genesis_block();
    tip_b.nonce = 1;
    tip_b.hash = Blockchain::calculate_hash(&tip_b);
    let mut candidate = Blockchain::create_genesis_block();
    candidate.index = 1;
    candidate.prev_hash = tip_a.hash.clone();
    assert!(!candidate_is_stale(Some(&tip_a), &candidate));
    assert!(candidate_is_stale(Some(&tip_b), &candidate));
    assert!(!candidate_is_stale(None, &candidate));
}

#[test]
fn template_stepping_observes_every_nonce() {
    let bc = Blockchain::new();
    let genesis = &bc.chain[0];
    let coinbase = build_coinbase("", "worker", 1000, "");
    let txs = splice_template_txs(coinbase, &vec![]);
    assert_eq!(txs.len(), 1);
    assert_eq!(txs[0].from, "coinbase");
    let mut template = build_template(genesis, txs, 1, GENESIS_TIMESTAMP + 30);
    assert_eq!(template.index, 1);
    assert_eq!(template.prev_hash, genesis.hash);
    assert_eq!(template.nonce, 0);
    let mut scratch = vec![0u64; owonero::pow::SCRATCHPAD_WORDS];
    let mut steps = 0u32;
    loop {
        assert!(steps < 4000, "difficulty one must be met within the budget");
        let nonce_before = template.nonce;
        if advance_template(&mut template, 1, &mut scratch) {
            assert_eq!(template.nonce, nonce_before);
            break;
        }
        assert_eq!(template.nonce, nonce_before + 1);
        steps += 1;
    }
    assert!(hash_meets_difficulty(&template.hash, 1));
    assert_eq!(template.hash, Blockchain::calculate_hash(&template));
    let mut bc = bc;
    assert!(bc.add_block(template, 1));
}
