use pi_sentinel::block::make_block;
use pi_sentinel::block::make_transaction;
use pi_sentinel::block::BlockProof;
use pi_sentinel::chain::ChainStore;
use pi_sentinel::consensus::PoWConsensus;
use pi_sentinel::coordinator::Coordinator;
use pi_sentinel::coordinator::RoundState;
use pi_sentinel::validator::ProofRules;
use pi_sentinel::validator::ValidationError;
use pi_sentinel::validator_set::ValidatorInfo;
use pi_sentinel::validator_set::ValidatorSet;
use pi_sentinel::voting::QuorumRule;
use pi_sentinel::voting::VoteDecision;
use pi_sentinel::voting::VoteOutcome;
use pi_sentinel::voting::VotingSubsystem;

fn three_validators() -> ValidatorSet {
    ValidatorSet::new(vec![
        ValidatorInfo { id: 1, stake: 10 },
        ValidatorInfo { id: 2, stake: 10 },
        ValidatorInfo { id: 3, stake: 10 },
    ])
}

fn fresh_coordinator() -> Coordinator {
    let genesis = make_block(0, Vec::new(), 1000, 0, BlockProof::Work { nonce: 0 }, Vec::new());
    let chain = ChainStore::new(genesis, vec![(7, 100)]);
    let votes = VotingSubsystem::new(QuorumRule::LeaderQuorum, three_validators());
    Coordinator::new(chain, votes, ProofRules::Work { target: u64::MAX }, 1, 30)
}

#[test]
fn full_round_commits_a_mined_candidate() {
    let mut coord = fresh_coordinator();
    assert_eq!(coord.submit_transaction(make_transaction(7, 1, vec![1])), Ok(()));
    assert_eq!(coord.pending_transactions().len(), 1);

    let mut miner = PoWConsensus::new(u64::MAX, 1);
    let txs = coord.pending_transactions().clone();
    let candidate = miner
        .propose(coord.chain(), txs, 1001, 16)
        .expect("an open target must mine in one slice");
    let hash = candidate.hash.clone();

    assert_eq!(coord.begin_round(candidate), Ok(()));
    assert_eq!(coord.current_state(), RoundState::Voting);

    // The coordinator's own Accept is already in; one peer settles it.
    let outcome = coord.on_vote(&hash, 2, VoteDecision::Accept);
    assert_eq!(outcome, VoteOutcome::Finalized);
    assert_eq!(coord.current_state(), RoundState::Idle);
    assert_eq!(coord.chain().head().height, 1);
    // The committed transaction left the pool.
    assert_eq!(coord.pending_transactions().len(), 0);
}

#[test]
fn rejected_candidate_aborts_and_keeps_the_pool() {
    let mut coord = fresh_coordinator();
    assert_eq!(coord.submit_transaction(make_transaction(7, 1, vec![1])), Ok(()));
    let mut miner = PoWConsensus::new(u64::MAX, 1);
    let txs = coord.pending_transactions().clone();
    let candidate = miner.propose(coord.chain(), txs, 1001, 16).expect("must mine");
    let hash = candidate.hash.clone();
    assert_eq!(coord.begin_round(candidate), Ok(()));
    coord.on_vote(&hash, 2, VoteDecision::Reject);
    let outcome = coord.on_vote(&hash, 3, VoteDecision::Reject);
    assert_eq!(outcome, VoteOutcome::Rejected);
    assert_eq!(coord.current_state(), RoundState::Aborted);
    assert_eq!(coord.chain().head().height, 0);
    // The bundled transaction returns for re-bundling.
    assert_eq!(coord.pending_transactions().len(), 1);
    coord.restart();
    assert_eq!(coord.current_state(), RoundState::Idle);
}

#[test]
fn invalid_candidate_aborts_the_round_at_validation() {
    let mut coord = fresh_coordinator();
    let stray = make_block(1, vec![9u8; 32], 1001, 1, BlockProof::Work { nonce: 1 }, Vec::new());
    assert_eq!(coord.begin_round(stray), Err(ValidationError::ParentMismatch));
    assert_eq!(coord.current_state(), RoundState::Aborted);
    coord.restart();
    assert_eq!(coord.current_state(), RoundState::Idle);
}

#[test]
fn round_timeout_aborts_and_preserves_the_pool() {
    let mut coord = fresh_coordinator();
    assert_eq!(coord.submit_transaction(make_transaction(7, 1, vec![1])), Ok(()));
    assert_eq!(coord.submit_transaction(make_transaction(7, 2, vec![2])), Ok(()));
    let mut miner = PoWConsensus::new(u64::MAX, 1);
    let txs = coord.pending_transactions().clone();
    let candidate = miner.propose(coord.chain(), txs, 1001, 16).expect("must mine");
    assert_eq!(coord.begin_round(candidate), Ok(()));
    assert_eq!(coord.current_state(), RoundState::Voting);
    // The voting window elapses with no quorum.
    coord.on_timeout();
    assert_eq!(coord.current_state(), RoundState::Aborted);
    // The pool's transactions are preserved for the next attempt.
    assert_eq!(coord.pending_transactions().len(), 2);
    assert_eq!(coord.chain().head().height, 0);
}

#[test]
fn stale_timeout_outside_voting_changes_nothing() {
    let mut coord = fresh_coordinator();
    coord.on_timeout();
    assert_eq!(coord.current_state(), RoundState::Idle);
}

#[test]
fn competing_head_aborts_the_round_in_flight() {
    let mut coord = fresh_coordinator();
    let mut miner = PoWConsensus::new(u64::MAX, 1);
    let candidate = miner.propose(coord.chain(), Vec::new(), 1001, 16).expect("must mine");
    assert_eq!(coord.begin_round(candidate), Ok(()));
    assert_eq!(coord.current_state(), RoundState::Voting);

    // A competing block at the same height arrives, finalized elsewhere.
    let other = make_block(
        1,
        coord.chain().head().hash.clone(),
        1002,
        2,
        BlockProof::Work { nonce: 99 },
        Vec::new(),
    );
    assert!(coord.on_new_head(other).is_ok());
    // Only one of the two candidates committed; the round in flight died.
    assert_eq!(coord.chain().head().height, 1);
    assert_eq!(coord.chain().head().proposer_id, 2);
    assert_eq!(coord.current_state(), RoundState::Aborted);
}

#[test]
fn duplicate_or_stale_gossip_does_not_disturb_the_round() {
    let mut coord = fresh_coordinator();
    let genesis = coord.chain().head().clone();
    let mut miner = PoWConsensus::new(u64::MAX, 1);
    let candidate = miner.propose(coord.chain(), Vec::new(), 1001, 16).expect("must mine");
    assert_eq!(coord.begin_round(candidate), Ok(()));
    // The genesis block arriving again is a no-op commit: no new head, no
    // abort.
    assert!(coord.on_new_head(genesis).is_ok());
    assert_eq!(coord.current_state(), RoundState::Voting);
    assert_eq!(coord.chain().head().height, 0);
}

#[test]
fn rejected_submission_stays_out_of_the_pool() {
    let mut coord = fresh_coordinator();
    let mut bad = make_transaction(7, 1, vec![1]);
    bad.nonce = 0;
    assert!(coord.submit_transaction(bad).is_err());
    assert_eq!(coord.pending_transactions().len(), 0);
}
