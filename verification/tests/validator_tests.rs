use pi_sentinel::block::make_block;
use pi_sentinel::block::make_transaction;
use pi_sentinel::block::BlockProof;
use pi_sentinel::chain::ChainStore;
use pi_sentinel::consensus::PoSConsensus;
use pi_sentinel::validator::eligible_proposer;
use pi_sentinel::validator::pow_value;
use pi_sentinel::validator::validate_block;
use pi_sentinel::validator::validate_transaction;
use pi_sentinel::validator::ProofRules;
use pi_sentinel::validator::ValidationError;
use pi_sentinel::validator_set::ValidatorInfo;
use pi_sentinel::validator_set::ValidatorSet;

fn genesis_store() -> ChainStore {
    let genesis = make_block(0, Vec::new(), 1000, 0, BlockProof::Work { nonce: 0 }, Vec::new());
    ChainStore::new(genesis, Vec::new())
}

fn validators() -> ValidatorSet {
    ValidatorSet::new(vec![
        ValidatorInfo { id: 1, stake: 10 },
        ValidatorInfo { id: 2, stake: 20 },
        ValidatorInfo { id: 3, stake: 30 },
    ])
}

#[test]
fn valid_transaction_is_accepted() {
    let store = genesis_store();
    let tx = make_transaction(7, 1, vec![1, 2, 3]);
    assert_eq!(validate_transaction(&tx, &store), Ok(()));
}

#[test]
fn stale_nonce_is_always_rejected() {
    let mut store = genesis_store();
    let committed = make_transaction(7, 5, vec![1]);
    let b = make_block(
        1,
        store.head().hash.clone(),
        1001,
        1,
        BlockProof::Work { nonce: 0 },
        vec![committed],
    );
    assert!(store.append(b).is_ok());
    // Equal to, and below, the last committed nonce: both replays.
    for nonce in [5u64, 4, 1, 0] {
        let tx = make_transaction(7, nonce, vec![9]);
        assert_eq!(validate_transaction(&tx, &store), Err(ValidationError::NonceReplay));
    }
    let fresh = make_transaction(7, 6, vec![9]);
    assert_eq!(validate_transaction(&fresh, &store), Ok(()));
}

#[test]
fn tampered_transaction_fails_its_signature() {
    let store = genesis_store();
    let mut tx = make_transaction(7, 1, vec![1, 2, 3]);
    tx.payload.push(4);
    assert_eq!(validate_transaction(&tx, &store), Err(ValidationError::InvalidSignature));
}

#[test]
fn pow_candidate_at_or_above_target_is_always_rejected() {
    let store = genesis_store();
    let vals = validators();
    let b = make_block(
        1,
        store.head().hash.clone(),
        1001,
        1,
        BlockProof::Work { nonce: 42 },
        Vec::new(),
    );
    let value = pow_value(&b);
    // A target at (or below) the candidate's own work value refuses it,
    // whatever its other fields hold.
    let rules = ProofRules::Work { target: value };
    assert_eq!(validate_block(&b, &store, &rules, &vals), Err(ValidationError::ProofInvalid));
    let rules_zero = ProofRules::Work { target: 0 };
    assert_eq!(validate_block(&b, &store, &rules_zero, &vals), Err(ValidationError::ProofInvalid));
}

#[test]
fn pow_candidate_below_target_is_accepted() {
    let store = genesis_store();
    let vals = validators();
    let b = make_block(
        1,
        store.head().hash.clone(),
        1001,
        1,
        BlockProof::Work { nonce: 42 },
        Vec::new(),
    );
    let rules = ProofRules::Work { target: u64::MAX };
    assert_eq!(validate_block(&b, &store, &rules, &vals), Ok(()));
}

#[test]
fn malformed_blocks_are_rejected_first() {
    let store = genesis_store();
    let vals = validators();
    let rules = ProofRules::Work { target: u64::MAX };
    // Absent proposer.
    let no_proposer = make_block(
        1,
        store.head().hash.clone(),
        1001,
        0,
        BlockProof::Work { nonce: 1 },
        Vec::new(),
    );
    assert_eq!(
        validate_block(&no_proposer, &store, &rules, &vals),
        Err(ValidationError::MalformedBlock)
    );
    // Height not one above the head.
    let wrong_height = make_block(
        7,
        store.head().hash.clone(),
        1001,
        1,
        BlockProof::Work { nonce: 1 },
        Vec::new(),
    );
    assert_eq!(
        validate_block(&wrong_height, &store, &rules, &vals),
        Err(ValidationError::MalformedBlock)
    );
    // Tampered hash field.
    let mut forged = make_block(
        1,
        store.head().hash.clone(),
        1001,
        1,
        BlockProof::Work { nonce: 1 },
        Vec::new(),
    );
    forged.hash[0] = forged.hash[0].wrapping_add(1);
    assert_eq!(
        validate_block(&forged, &store, &rules, &vals),
        Err(ValidationError::MalformedBlock)
    );
}

#[test]
fn unlinked_parent_is_rejected_after_structure() {
    let store = genesis_store();
    let vals = validators();
    let rules = ProofRules::Work { target: u64::MAX };
    let stray = make_block(1, vec![9u8; 32], 1001, 1, BlockProof::Work { nonce: 1 }, Vec::new());
    assert_eq!(validate_block(&stray, &store, &rules, &vals), Err(ValidationError::ParentMismatch));
}

#[test]
fn block_transactions_are_checked_in_order() {
    let store = genesis_store();
    let vals = validators();
    let rules = ProofRules::Work { target: u64::MAX };
    // Two transactions of one sender: the second reuses the first's nonce.
    let t1 = make_transaction(7, 2, vec![1]);
    let t2 = make_transaction(7, 2, vec![2]);
    let b = make_block(
        1,
        store.head().hash.clone(),
        1001,
        1,
        BlockProof::Work { nonce: 1 },
        vec![t1, t2],
    );
    assert_eq!(validate_block(&b, &store, &rules, &vals), Err(ValidationError::NonceReplay));
    // In increasing nonce order the same pair passes.
    let t3 = make_transaction(7, 2, vec![1]);
    let t4 = make_transaction(7, 3, vec![2]);
    let good = make_block(
        1,
        store.head().hash.clone(),
        1001,
        1,
        BlockProof::Work { nonce: 1 },
        vec![t3, t4],
    );
    assert_eq!(validate_block(&good, &store, &rules, &vals), Ok(()));
}

#[test]
fn stake_sealed_block_from_the_eligible_proposer_is_accepted() {
    let store = genesis_store();
    let vals = validators();
    let chosen = eligible_proposer(&store.head().hash, 1, &vals);
    assert!(chosen != 0);
    let strategy = PoSConsensus::new(chosen);
    let b = strategy
        .propose(&store, &vals, Vec::new(), 1001)
        .expect("the eligible proposer must propose");
    assert_eq!(validate_block(&b, &store, &ProofRules::Stake, &vals), Ok(()));
}

#[test]
fn stake_rules_refuse_a_work_sealed_block() {
    let store = genesis_store();
    let vals = validators();
    let chosen = eligible_proposer(&store.head().hash, 1, &vals);
    let b = make_block(
        1,
        store.head().hash.clone(),
        1001,
        chosen,
        BlockProof::Work { nonce: 1 },
        Vec::new(),
    );
    assert_eq!(
        validate_block(&b, &store, &ProofRules::Stake, &vals),
        Err(ValidationError::ProofInvalid)
    );
}
