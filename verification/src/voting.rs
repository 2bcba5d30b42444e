//! The voting subsystem: vote records keyed by block hash and voter, and
//! the quorum rules that turn a tally into a finalize/reject outcome.
//!
//! A validator may change its vote for a block until the outcome is
//! decided; votes that arrive after finalization or rejection are accepted
//! but have no further effect. Votes from identities outside the validator
//! set are ignored.

use vstd::prelude::*;

use crate::validator_set::has_member;
use crate::validator_set::ValidatorSet;

verus! {

/// A validator's decision on a candidate block.
#[derive(Clone, Copy, Debug, PartialEq, Eq, Structural)]
pub enum VoteDecision {
    Accept,
    Reject,
}

/// Where a candidate block stands with the voters.
#[derive(Clone, Copy, Debug, PartialEq, Eq, Structural)]
pub enum VoteOutcome {
    /// Neither threshold has been reached.
    Pending,
    /// Enough Accept votes: the block is to be committed.
    Finalized,
    /// Enough Reject votes: the block is to be discarded.
    Rejected,
}

/// Which quorum rule turns tallies into outcomes.
#[derive(Clone, Copy, Debug, PartialEq, Eq, Structural)]
pub enum QuorumRule {
    /// Finalized on a strict majority of Accept votes; Rejected as soon as
    /// a majority has become impossible.
    LeaderQuorum,
    /// Finalized on at least ceil((2n+1)/3) Accept votes, tolerating up to
    /// floor((n-1)/3) faulty validators; Rejected symmetrically.
    ByzantineQuorum,
}

/// One vote: keyed by block hash and voter; a voter's last write for a
/// given block stands.
#[derive(Clone, Debug)]
pub struct VoteRecord {
    pub block_hash: Vec<u8>,
    pub voter_id: u64,
    pub decision: VoteDecision,
}

// ---------------------------------------------------------------------------
// Tallies and outcomes, in specification
// ---------------------------------------------------------------------------

/// How many recorded votes on `bh` carry decision `d`.
pub open spec fn count_votes(votes: Seq<VoteRecord>, bh: Seq<u8>, d: VoteDecision) -> int
    decreases votes.len(),
{
    if votes.len() == 0 {
        0
    } else {
        count_votes(votes.drop_last(), bh, d) + if votes.last().block_hash@ == bh
            && votes.last().decision == d {
            1int
        } else {
            0int
        }
    }
}

/// The Accept threshold of the Byzantine rule over `n` validators:
/// ceil((2n+1)/3).
pub open spec fn byzantine_threshold(n: int) -> int {
    (2 * n + 3) / 3
}

/// The outcome a tally of `accepts` and `rejects` among `n` validators
/// yields under `rule`.
pub open spec fn spec_outcome_of(accepts: int, rejects: int, n: int, rule: QuorumRule) -> VoteOutcome {
    match rule {
        QuorumRule::LeaderQuorum => {
            if accepts > n / 2 {
                VoteOutcome::Finalized
            } else if n - rejects <= n / 2 {
                VoteOutcome::Rejected
            } else {
                VoteOutcome::Pending
            }
        },
        QuorumRule::ByzantineQuorum => {
            if accepts >= byzantine_threshold(n) {
                VoteOutcome::Finalized
            } else if rejects >= byzantine_threshold(n) {
                VoteOutcome::Rejected
            } else {
                VoteOutcome::Pending
            }
        },
    }
}

/// The outcome of `bh` under `rule` given the recorded votes and `n`
/// validators.
pub open spec fn spec_outcome(
    votes: Seq<VoteRecord>,
    n: int,
    rule: QuorumRule,
    bh: Seq<u8>,
) -> VoteOutcome {
    spec_outcome_of(
        count_votes(votes, bh, VoteDecision::Accept),
        count_votes(votes, bh, VoteDecision::Reject),
        n,
        rule,
    )
}

/// Whether `voter` has a recorded vote on `bh`.
pub open spec fn has_vote(votes: Seq<VoteRecord>, bh: Seq<u8>, voter: u64) -> bool {
    exists|i: int|
        0 <= i < votes.len() && (#[trigger] votes[i]).block_hash@ == bh && votes[i].voter_id
            == voter
}

/// `new_votes` is `old_votes` with one fresh record for (`bh`, `voter`)
/// carrying decision `d` appended at the end.
pub open spec fn vote_appended(
    old_votes: Seq<VoteRecord>,
    new_votes: Seq<VoteRecord>,
    bh: Seq<u8>,
    voter: u64,
    d: VoteDecision,
) -> bool {
    &&& new_votes.len() == old_votes.len() + 1
    &&& forall|k: int| 0 <= k < old_votes.len() ==> new_votes[k] == old_votes[k]
    &&& new_votes.last().block_hash@ == bh
    &&& new_votes.last().voter_id == voter
    &&& new_votes.last().decision == d
}

/// `new_votes` is `old_votes` with the record keyed (`bh`, `voter`)
/// rewritten to carry decision `d`, everything else untouched.
pub open spec fn vote_updated(
    old_votes: Seq<VoteRecord>,
    new_votes: Seq<VoteRecord>,
    bh: Seq<u8>,
    voter: u64,
    d: VoteDecision,
) -> bool {
    &&& new_votes.len() == old_votes.len()
    &&& forall|i: int|
        0 <= i < old_votes.len() && (#[trigger] old_votes[i]).block_hash@ == bh
            && old_votes[i].voter_id == voter ==> new_votes[i].block_hash@ == bh
            && new_votes[i].voter_id == voter && new_votes[i].decision == d
    &&& forall|i: int|
        0 <= i < old_votes.len() && !((#[trigger] old_votes[i]).block_hash@ == bh
            && old_votes[i].voter_id == voter) ==> new_votes[i] == old_votes[i]
}

/// How one `record_vote` call relates the ledger after to the ledger
/// before: untouched for outsiders and decided blocks, appended for a
/// voter's first word on a block, rewritten for a change of mind.
pub open spec fn vote_recorded(
    old_votes: Seq<VoteRecord>,
    new_votes: Seq<VoteRecord>,
    n: int,
    rule: QuorumRule,
    members: Seq<crate::validator_set::ValidatorInfo>,
    bh: Seq<u8>,
    voter: u64,
    d: VoteDecision,
) -> bool {
    &&& (!has_member(members, voter) || spec_outcome(old_votes, n, rule, bh)
        != VoteOutcome::Pending ==> new_votes == old_votes)
    &&& (has_member(members, voter) && spec_outcome(old_votes, n, rule, bh)
        == VoteOutcome::Pending && !has_vote(old_votes, bh, voter) ==> vote_appended(
        old_votes,
        new_votes,
        bh,
        voter,
        d,
    ))
    &&& (has_member(members, voter) && spec_outcome(old_votes, n, rule, bh)
        == VoteOutcome::Pending && has_vote(old_votes, bh, voter) ==> vote_updated(
        old_votes,
        new_votes,
        bh,
        voter,
        d,
    ))
}

/// How many recorded votes name `bh`, whatever they decide.
pub open spec fn count_votes_for(votes: Seq<VoteRecord>, bh: Seq<u8>) -> int
    decreases votes.len(),
{
    if votes.len() == 0 {
        0
    } else {
        count_votes_for(votes.drop_last(), bh) + if votes.last().block_hash@ == bh {
            1int
        } else {
            0int
        }
    }
}

/// The identities that have voted on `bh`.
pub open spec fn voters_for(votes: Seq<VoteRecord>, bh: Seq<u8>) -> Set<u64>
    decreases votes.len(),
{
    if votes.len() == 0 {
        Set::empty()
    } else {
        let rest = voters_for(votes.drop_last(), bh);
        if votes.last().block_hash@ == bh {
            rest.insert(votes.last().voter_id)
        } else {
            rest
        }
    }
}

/// Every vote decides one way or the other, so the two tallies split the
/// votes on a block exactly.
proof fn lemma_tally_splits(votes: Seq<VoteRecord>, bh: Seq<u8>)
    ensures
        count_votes(votes, bh, VoteDecision::Accept) + count_votes(votes, bh, VoteDecision::Reject)
            == count_votes_for(votes, bh),
    decreases votes.len(),
{
    if votes.len() > 0 {
        lemma_tally_splits(votes.drop_last(), bh);
    }
}

/// The voter set of `bh` holds an identity exactly when some vote on `bh`
/// carries it.
proof fn lemma_voters_for_contains(votes: Seq<VoteRecord>, bh: Seq<u8>, v: u64)
    ensures
        voters_for(votes, bh).contains(v) <==> exists|i: int|
            0 <= i < votes.len() && (#[trigger] votes[i]).block_hash@ == bh && votes[i].voter_id
                == v,
        voters_for(votes, bh).finite(),
    decreases votes.len(),
{
    if votes.len() > 0 {
        lemma_voters_for_contains(votes.drop_last(), bh, v);
        if voters_for(votes, bh).contains(v) {
            if !(votes.last().block_hash@ == bh && votes.last().voter_id == v) {
                let i = choose|i: int|
                    0 <= i < votes.drop_last().len() && (#[trigger] votes.drop_last()[i]).block_hash@
                        == bh && votes.drop_last()[i].voter_id == v;
                assert(votes[i].block_hash@ == bh && votes[i].voter_id == v);
            } else {
                assert(votes[votes.len() - 1].block_hash@ == bh);
            }
        }
        if exists|i: int|
            0 <= i < votes.len() && (#[trigger] votes[i]).block_hash@ == bh && votes[i].voter_id
                == v {
            let i = choose|i: int|
                0 <= i < votes.len() && (#[trigger] votes[i]).block_hash@ == bh && votes[i].voter_id
                    == v;
            if i < votes.len() - 1 {
                assert(votes.drop_last()[i].block_hash@ == bh && votes.drop_last()[i].voter_id
                    == v);
            }
        }
    }
}

/// With one standing vote per voter and block, the tally on a block is
/// the number of distinct identities behind it.
proof fn lemma_tally_counts_voters(votes: Seq<VoteRecord>, bh: Seq<u8>)
    requires
        forall|i: int, j: int|
            0 <= i < j < votes.len() ==> !((#[trigger] votes[i]).block_hash@ == (
            #[trigger] votes[j]).block_hash@ && votes[i].voter_id == votes[j].voter_id),
    ensures
        count_votes_for(votes, bh) == voters_for(votes, bh).len(),
    decreases votes.len(),
{
    if votes.len() > 0 {
        assert forall|i: int, j: int|
            0 <= i < j < votes.drop_last().len() implies !((#[trigger] votes.drop_last()[
        i]).block_hash@ == (#[trigger] votes.drop_last()[j]).block_hash@ && votes.drop_last()[
        i].voter_id == votes.drop_last()[j].voter_id) by {
            assert(votes[i] == votes.drop_last()[i] && votes[j] == votes.drop_last()[j]);
        };
        lemma_tally_counts_voters(votes.drop_last(), bh);
        lemma_voters_for_contains(votes.drop_last(), bh, votes.last().voter_id);
        if votes.last().block_hash@ == bh {
            assert(!voters_for(votes.drop_last(), bh).contains(votes.last().voter_id)) by {
                if voters_for(votes.drop_last(), bh).contains(votes.last().voter_id) {
                    let i = choose|i: int|
                        0 <= i < votes.drop_last().len() && (#[trigger] votes.drop_last()[
                        i]).block_hash@ == bh && votes.drop_last()[i].voter_id == votes.last().voter_id;
                    assert(votes[i].block_hash@ == votes[votes.len() - 1].block_hash@ && votes[
                        i].voter_id == votes[votes.len() - 1].voter_id);
                }
            }
        }
    }
}

/// The identities of the members, in order.
pub open spec fn member_ids(members: Seq<crate::validator_set::ValidatorInfo>) -> Seq<u64> {
    members.map_values(|m: crate::validator_set::ValidatorInfo| m.id)
}

/// Voters vote at most once per block and only members vote, so a block's
/// tally never exceeds the number of validators.
proof fn lemma_tally_bounded(
    votes: Seq<VoteRecord>,
    members: Seq<crate::validator_set::ValidatorInfo>,
    bh: Seq<u8>,
)
    requires
        forall|i: int, j: int|
            0 <= i < j < votes.len() ==> !((#[trigger] votes[i]).block_hash@ == (
            #[trigger] votes[j]).block_hash@ && votes[i].voter_id == votes[j].voter_id),
        forall|i: int| 0 <= i < votes.len() ==> has_member(members, (#[trigger] votes[i]).voter_id),
        forall|i: int, j: int|
            0 <= i < j < members.len() ==> (#[trigger] members[i]).id < (#[trigger] members[j]).id,
    ensures
        count_votes(votes, bh, VoteDecision::Accept) + count_votes(votes, bh, VoteDecision::Reject)
            <= members.len(),
{
    lemma_tally_splits(votes, bh);
    lemma_tally_counts_voters(votes, bh);
    let ids = member_ids(members);
    assert(ids.no_duplicates()) by {
        assert forall|i: int, j: int| 0 <= i < ids.len() && 0 <= j < ids.len() && i != j implies
            ids[i] != ids[j] by {
            assert(ids[i] == members[i].id && ids[j] == members[j].id);
        };
    }
    ids.unique_seq_to_set();
    assert(voters_for(votes, bh).subset_of(ids.to_set())) by {
        assert forall|v: u64| voters_for(votes, bh).contains(v) implies ids.to_set().contains(
            v,
        ) by {
            lemma_voters_for_contains(votes, bh, v);
            let i = choose|i: int|
                0 <= i < votes.len() && (#[trigger] votes[i]).block_hash@ == bh && votes[
                i].voter_id == v;
            assert(has_member(members, v));
            let m = choose|m: int| 0 <= m < members.len() && (#[trigger] members[m]).id == v;
            assert(ids[m] == v);
            assert(ids.contains(v));
        };
    }
    lemma_voters_for_contains(votes, bh, 0);
    vstd::set_lib::lemma_len_subset(voters_for(votes, bh), ids.to_set());
}

// ---------------------------------------------------------------------------
// The subsystem
// ---------------------------------------------------------------------------

/// Aggregates per-validator decisions on candidate blocks into outcomes.
pub struct VotingSubsystem {
    rule: QuorumRule,
    validators: ValidatorSet,
    votes: Vec<VoteRecord>,
}

impl VotingSubsystem {
    /// The quorum rule in force.
    pub closed spec fn rule(self) -> QuorumRule {
        self.rule
    }

    /// The identities eligible to vote.
    pub closed spec fn voters(self) -> Seq<crate::validator_set::ValidatorInfo> {
        self.validators.members()
    }

    /// The recorded votes, in arrival order of their first write.
    pub closed spec fn votes(self) -> Seq<VoteRecord> {
        self.votes@
    }

    #[verifier::type_invariant]
    spec fn inv(self) -> bool {
        &&& forall|i: int, j: int|
            0 <= i < j < self.votes@.len() ==> !((#[trigger] self.votes@[i]).block_hash@ == (
            #[trigger] self.votes@[j]).block_hash@ && self.votes@[i].voter_id
                == self.votes@[j].voter_id)
        &&& forall|i: int|
            0 <= i < self.votes@.len() ==> has_member(
                self.validators.members(),
                (#[trigger] self.votes@[i]).voter_id,
            )
    }

    /// Opens a voting subsystem over `validators` under `rule`, with no
    /// votes yet.
    pub fn new(rule: QuorumRule, validators: ValidatorSet) -> (v: VotingSubsystem)
        ensures
            v.rule() == rule,
            v.voters() == validators.members(),
            v.votes() == Seq::<VoteRecord>::empty(),
    {
        let v = VotingSubsystem { rule, validators, votes: Vec::new() };
        proof {
            assert(v.votes@ =~= Seq::<VoteRecord>::empty());
        }
        v
    }

    /// How many recorded votes on `bh` carry decision `d`.
    fn count_decision(&self, bh: &Vec<u8>, d: VoteDecision) -> (r: usize)
        ensures
            r == count_votes(self.votes(), bh@, d),
    {
        let mut r: usize = 0;
        for i in 0..self.votes.len()
            invariant
                0 <= r <= i,
                r == count_votes(self.votes@.take(i as int), bh@, d),
        {
            let matches_bh = crate::utils::bytes_eq(&self.votes[i].block_hash, bh);
            if matches_bh && self.votes[i].decision == d {
                r = r + 1;
            }
            proof {
                assert(self.votes@.take(i + 1).drop_last() =~= self.votes@.take(i as int));
                assert(self.votes@.take(i + 1).last() == self.votes@[i as int]);
            }
        }
        proof {
            assert(self.votes@.take(self.votes@.len() as int) =~= self.votes@);
        }
        r
    }

    /// The outcome of `bh` under the rule in force: Finalized or Rejected
    /// once the tally crosses the rule's threshold, Pending before.
    pub fn outcome(&self, block_hash: &Vec<u8>) -> (r: VoteOutcome)
        ensures
            r == spec_outcome(self.votes(), self.voters().len() as int, self.rule(), block_hash@),
            count_votes(self.votes(), block_hash@, VoteDecision::Accept) + count_votes(
                self.votes(),
                block_hash@,
                VoteDecision::Reject,
            ) <= self.voters().len(),
    {
        let accepts = self.count_decision(block_hash, VoteDecision::Accept);
        let rejects = self.count_decision(block_hash, VoteDecision::Reject);
        let n = self.validators.len();
        proof {
            use_type_invariant(self);
            lemma_tally_bounded(self.votes@, self.validators.members(), block_hash@);
        }
        match self.rule {
            QuorumRule::LeaderQuorum => {
                if accepts > n / 2 {
                    VoteOutcome::Finalized
                } else if (n as i128) - (rejects as i128) <= (n as i128) / 2 {
                    VoteOutcome::Rejected
                } else {
                    VoteOutcome::Pending
                }
            },
            QuorumRule::ByzantineQuorum => {
                let t = (2 * (n as u128) + 3) / 3;
                if accepts as u128 >= t {
                    VoteOutcome::Finalized
                } else if rejects as u128 >= t {
                    VoteOutcome::Rejected
                } else {
                    VoteOutcome::Pending
                }
            },
        }
    }

    /// The validator set this subsystem tallies over.
    pub fn validator_set(&self) -> (r: &ValidatorSet)
        ensures
            r.members() == self.voters(),
    {
        &self.validators
    }

    /// Records `voter_id`'s decision on `block_hash`: the voter's last
    /// write for a block stands, until the block's outcome is decided;
    /// after that, and for identities outside the validator set, the call
    /// is accepted but changes nothing.
    pub fn record_vote(
        &mut self,
        block_hash: &Vec<u8>,
        voter_id: u64,
        decision: VoteDecision,
    ) -> (changed: bool)
        ensures
            final(self).rule() == old(self).rule(),
            final(self).voters() == old(self).voters(),
            vote_recorded(
                old(self).votes(),
                final(self).votes(),
                old(self).voters().len() as int,
                old(self).rule(),
                old(self).voters(),
                block_hash@,
                voter_id,
                decision,
            ),
            changed <==> has_member(old(self).voters(), voter_id) && spec_outcome(
                old(self).votes(),
                old(self).voters().len() as int,
                old(self).rule(),
                block_hash@,
            ) == VoteOutcome::Pending,
    {
        proof {
            use_type_invariant(&*self);
        }
        if !self.validators.contains(voter_id) {
            return false;
        }
        let decided = self.outcome(block_hash);
        if !(decided == VoteOutcome::Pending) {
            return false;
        }
        let mut bh_copy: Vec<u8> = Vec::new();
        bh_copy.extend_from_slice(block_hash.as_slice());
        proof {
            assert(bh_copy@ =~= block_hash@);
        }
        let rec = VoteRecord { block_hash: bh_copy, voter_id, decision };
        let ghost votes0 = self.votes@;
        let mut votes: Vec<VoteRecord> = Vec::new();
        core::mem::swap(&mut votes, &mut self.votes);
        let n = votes.len();
        for i in 0..n
            invariant
                n == votes@.len(),
                votes@ == votes0,
                rec.block_hash@ == block_hash@,
                rec.voter_id == voter_id,
                rec.decision == decision,
                forall|j: int|
                    0 <= j < i ==> !((#[trigger] votes0[j]).block_hash@ == block_hash@
                        && votes0[j].voter_id == voter_id),
                forall|p: int, q: int|
                    0 <= p < q < votes0.len() ==> !((#[trigger] votes0[p]).block_hash@ == (
                    #[trigger] votes0[q]).block_hash@ && votes0[p].voter_id
                        == votes0[q].voter_id),
                forall|p: int|
                    0 <= p < votes0.len() ==> has_member(
                        self.validators.members(),
                        (#[trigger] votes0[p]).voter_id,
                    ),
                has_member(self.validators.members(), voter_id),
                self.validators.members() == old(self).voters(),
                votes0 == old(self).votes(),
                self.rule == old(self).rule(),
                spec_outcome(
                    votes0,
                    old(self).voters().len() as int,
                    old(self).rule(),
                    block_hash@,
                ) == VoteOutcome::Pending,
        {
            let matches_bh = crate::utils::bytes_eq(&votes[i].block_hash, block_hash);
            if matches_bh && votes[i].voter_id == voter_id {
                votes.set(i, rec);
                proof {
                    lemma_record_update_keeps_inv(votes0, votes@, i as int, self.validators.members());
                }
                self.votes = votes;
                return true;
            }
        }
        votes.push(rec);
        proof {
            assert(votes@.drop_last() =~= votes0);
            assert(forall|k: int| 0 <= k < votes0.len() ==> votes@[k] == votes0[k]);
        }
        self.votes = votes;
        true
    }
}

/// Updating the record at `i` with one carrying the same key preserves the
/// vote ledger's key uniqueness and voter membership.
proof fn lemma_record_update_keeps_inv(
    votes0: Seq<VoteRecord>,
    votes1: Seq<VoteRecord>,
    i: int,
    members: Seq<crate::validator_set::ValidatorInfo>,
)
    requires
        0 <= i < votes0.len(),
        votes1.len() == votes0.len(),
        votes1[i].block_hash@ == votes0[i].block_hash@,
        votes1[i].voter_id == votes0[i].voter_id,
        forall|k: int| 0 <= k < votes0.len() && k != i ==> votes1[k] == votes0[k],
        forall|p: int, q: int|
            0 <= p < q < votes0.len() ==> !((#[trigger] votes0[p]).block_hash@ == (
            #[trigger] votes0[q]).block_hash@ && votes0[p].voter_id == votes0[q].voter_id),
        forall|p: int|
            0 <= p < votes0.len() ==> has_member(members, (#[trigger] votes0[p]).voter_id),
        has_member(members, votes1[i].voter_id),
    ensures
        forall|p: int, q: int|
            0 <= p < q < votes1.len() ==> !((#[trigger] votes1[p]).block_hash@ == (
            #[trigger] votes1[q]).block_hash@ && votes1[p].voter_id == votes1[q].voter_id),
        forall|p: int|
            0 <= p < votes1.len() ==> has_member(members, (#[trigger] votes1[p]).voter_id),
{
    assert forall|p: int, q: int|
        0 <= p < q < votes1.len() implies !((#[trigger] votes1[p]).block_hash@ == (
        #[trigger] votes1[q]).block_hash@ && votes1[p].voter_id == votes1[q].voter_id) by {
        assert(votes0[p].block_hash@ == votes1[p].block_hash@ && votes0[p].voter_id
            == votes1[p].voter_id);
        assert(votes0[q].block_hash@ == votes1[q].block_hash@ && votes0[q].voter_id
            == votes1[q].voter_id);
    };
}

} // verus!
