use pi_sentinel::validator_set::ValidatorInfo;
use pi_sentinel::validator_set::ValidatorSet;
use pi_sentinel::voting::QuorumRule;
use pi_sentinel::voting::VoteDecision;
use pi_sentinel::voting::VoteOutcome;
use pi_sentinel::voting::VotingSubsystem;

fn validators(n: u64) -> ValidatorSet {
    let mut members = Vec::new();
    for id in 1..=n {
        members.push(ValidatorInfo { id, stake: 10 });
    }
    ValidatorSet::new(members)
}

fn bh(tag: u8) -> Vec<u8> {
    vec![tag; 32]
}

#[test]
fn leader_quorum_three_accepts_of_five_finalize() {
    let mut votes = VotingSubsystem::new(QuorumRule::LeaderQuorum, validators(5));
    let hash = bh(1);
    for voter in 1..=3u64 {
        votes.record_vote(&hash, voter, VoteDecision::Accept);
    }
    assert_eq!(votes.outcome(&hash), VoteOutcome::Finalized);
}

#[test]
fn leader_quorum_three_rejects_of_five_reject() {
    let mut votes = VotingSubsystem::new(QuorumRule::LeaderQuorum, validators(5));
    let hash = bh(2);
    for voter in 1..=3u64 {
        votes.record_vote(&hash, voter, VoteDecision::Reject);
    }
    assert_eq!(votes.outcome(&hash), VoteOutcome::Rejected);
}

#[test]
fn leader_quorum_split_two_two_stays_pending() {
    let mut votes = VotingSubsystem::new(QuorumRule::LeaderQuorum, validators(5));
    let hash = bh(3);
    votes.record_vote(&hash, 1, VoteDecision::Accept);
    votes.record_vote(&hash, 2, VoteDecision::Accept);
    votes.record_vote(&hash, 3, VoteDecision::Reject);
    votes.record_vote(&hash, 4, VoteDecision::Reject);
    assert_eq!(votes.outcome(&hash), VoteOutcome::Pending);
}

#[test]
fn byzantine_quorum_three_accepts_of_four_finalize() {
    let mut votes = VotingSubsystem::new(QuorumRule::ByzantineQuorum, validators(4));
    let hash = bh(4);
    for voter in 1..=3u64 {
        votes.record_vote(&hash, voter, VoteDecision::Accept);
    }
    assert_eq!(votes.outcome(&hash), VoteOutcome::Finalized);
}

#[test]
fn byzantine_quorum_split_two_two_stays_pending() {
    let mut votes = VotingSubsystem::new(QuorumRule::ByzantineQuorum, validators(4));
    let hash = bh(5);
    votes.record_vote(&hash, 1, VoteDecision::Accept);
    votes.record_vote(&hash, 2, VoteDecision::Accept);
    votes.record_vote(&hash, 3, VoteDecision::Reject);
    votes.record_vote(&hash, 4, VoteDecision::Reject);
    assert_eq!(votes.outcome(&hash), VoteOutcome::Pending);
}

#[test]
fn byzantine_quorum_three_rejects_of_four_reject() {
    let mut votes = VotingSubsystem::new(QuorumRule::ByzantineQuorum, validators(4));
    let hash = bh(6);
    for voter in 1..=3u64 {
        votes.record_vote(&hash, voter, VoteDecision::Reject);
    }
    assert_eq!(votes.outcome(&hash), VoteOutcome::Rejected);
}

#[test]
fn voter_may_change_vote_until_decided() {
    let mut votes = VotingSubsystem::new(QuorumRule::LeaderQuorum, validators(5));
    let hash = bh(7);
    votes.record_vote(&hash, 1, VoteDecision::Reject);
    votes.record_vote(&hash, 2, VoteDecision::Reject);
    assert_eq!(votes.outcome(&hash), VoteOutcome::Pending);
    // Both change their minds before the outcome is decided; their last
    // word stands.
    votes.record_vote(&hash, 2, VoteDecision::Accept);
    votes.record_vote(&hash, 1, VoteDecision::Accept);
    votes.record_vote(&hash, 3, VoteDecision::Accept);
    assert_eq!(votes.outcome(&hash), VoteOutcome::Finalized);
}

#[test]
fn votes_after_decision_have_no_effect() {
    let mut votes = VotingSubsystem::new(QuorumRule::LeaderQuorum, validators(3));
    let hash = bh(8);
    votes.record_vote(&hash, 1, VoteDecision::Accept);
    let changed_second = votes.record_vote(&hash, 2, VoteDecision::Accept);
    assert!(changed_second);
    assert_eq!(votes.outcome(&hash), VoteOutcome::Finalized);
    // The decision is final: a late landslide of rejects changes nothing.
    let changed_late = votes.record_vote(&hash, 3, VoteDecision::Reject);
    assert!(!changed_late);
    assert_eq!(votes.outcome(&hash), VoteOutcome::Finalized);
}

#[test]
fn votes_from_outside_the_validator_set_are_ignored() {
    let mut votes = VotingSubsystem::new(QuorumRule::LeaderQuorum, validators(3));
    let hash = bh(9);
    for voter in 100..110u64 {
        let changed = votes.record_vote(&hash, voter, VoteDecision::Accept);
        assert!(!changed);
    }
    assert_eq!(votes.outcome(&hash), VoteOutcome::Pending);
}

#[test]
fn tallies_are_kept_per_block_hash() {
    let mut votes = VotingSubsystem::new(QuorumRule::LeaderQuorum, validators(3));
    let first = bh(10);
    let second = bh(11);
    votes.record_vote(&first, 1, VoteDecision::Accept);
    votes.record_vote(&first, 2, VoteDecision::Accept);
    votes.record_vote(&second, 1, VoteDecision::Reject);
    assert_eq!(votes.outcome(&first), VoteOutcome::Finalized);
    assert_eq!(votes.outcome(&second), VoteOutcome::Pending);
}
