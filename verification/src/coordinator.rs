//! The coordinator: the state machine that drives one round at a time
//! through propose, validate, vote and commit.
//!
//! The coordinator exclusively owns the chain head and the pending pool;
//! validator, voting subsystem and consensus strategies only ever see
//! read-only snapshots and return decisions for the coordinator to apply.
//! At most one round is in flight; a new head observed mid-round aborts
//! the round at once, so no work is wasted on a stale parent.

use vstd::prelude::*;

use crate::block::Block;
use crate::block::Transaction;
use crate::chain::ChainError;
use crate::chain::ChainStore;
use crate::utils::bytes_eq;
use crate::validator::spec_validate_block;
use crate::validator::spec_validate_tx;
use crate::validator::validate_block;
use crate::validator::validate_transaction;
use crate::validator::ProofRules;
use crate::validator::ValidationError;
use crate::voting::spec_outcome;
use crate::voting::vote_recorded;
use crate::voting::QuorumRule;
use crate::voting::VoteDecision;
use crate::voting::VoteOutcome;
use crate::voting::VoteRecord;
use crate::voting::VotingSubsystem;

verus! {

/// Where the in-flight round stands. `Aborted` is terminal for the round:
/// the next round starts by returning to `Idle`.
#[derive(Clone, Copy, Debug, PartialEq, Eq, Structural)]
pub enum RoundState {
    /// No round in flight; waiting for a candidate.
    Idle,
    /// A consensus strategy is producing a candidate.
    Proposing,
    /// A candidate is being checked by the validator.
    Validating,
    /// Votes are being collected on the candidate.
    Voting,
    /// A finalized candidate is being committed to the chain store.
    Committing,
    /// The round was discarded: validation failed, the vote rejected the
    /// candidate, the voting window timed out, or a new head superseded
    /// the round's parent.
    Aborted,
}

/// Whether some transaction in `txs` carries the id `id`.
pub open spec fn tx_in(txs: Seq<Transaction>, id: Seq<u8>) -> bool {
    exists|i: int| 0 <= i < txs.len() && (#[trigger] txs[i]).id@ == id
}

/// The pool with every transaction committed by `committed` taken out;
/// order is kept.
pub open spec fn pool_without(pool: Seq<Transaction>, committed: Seq<Transaction>) -> Seq<
    Transaction,
>
    decreases pool.len(),
{
    if pool.len() == 0 {
        Seq::empty()
    } else {
        let rest = pool_without(pool.drop_last(), committed);
        if tx_in(committed, pool.last().id@) {
            rest
        } else {
            rest.push(pool.last())
        }
    }
}

/// The coordinator: owns the chain store, the pending pool and the vote
/// ledger, and applies the other components' decisions sequentially.
pub struct Coordinator {
    chain: ChainStore,
    votes: VotingSubsystem,
    rules: ProofRules,
    node_id: u64,
    round_timeout: u64,
    state: RoundState,
    candidate: Option<Block>,
    pool: Vec<Transaction>,
}

impl Coordinator {
    /// The committed chain.
    pub closed spec fn blocks(self) -> Seq<Block> {
        self.chain.blocks()
    }

    /// The vote ledger.
    pub closed spec fn ledger(self) -> Seq<VoteRecord> {
        self.votes.votes()
    }

    /// The validator identities eligible to vote.
    pub closed spec fn voters(self) -> Seq<crate::validator_set::ValidatorInfo> {
        self.votes.voters()
    }

    /// The quorum rule in force.
    pub closed spec fn rule(self) -> QuorumRule {
        self.votes.rule()
    }

    /// The algorithm-specific acceptance rules in force.
    pub closed spec fn rules(self) -> ProofRules {
        self.rules
    }

    /// This node's identity.
    pub closed spec fn node_id(self) -> u64 {
        self.node_id
    }

    /// The configured voting window; when it elapses with the outcome
    /// still pending, the round aborts.
    pub closed spec fn round_timeout(self) -> u64 {
        self.round_timeout
    }

    /// Where the in-flight round stands.
    pub closed spec fn state(self) -> RoundState {
        self.state
    }

    /// The in-flight candidate, while one is being voted on.
    pub closed spec fn candidate(self) -> Option<Block> {
        self.candidate
    }

    /// The pending pool of transactions awaiting a block.
    pub closed spec fn pool(self) -> Seq<Transaction> {
        self.pool@
    }

    /// A round in flight always knows its candidate.
    pub open spec fn wf(self) -> bool {
        self.state() == RoundState::Voting || self.state() == RoundState::Committing
            ==> self.candidate() is Some
    }

    /// Opens a coordinator over a fresh round: idle, with no candidate and
    /// an empty pool.
    pub fn new(
        chain: ChainStore,
        votes: VotingSubsystem,
        rules: ProofRules,
        node_id: u64,
        round_timeout: u64,
    ) -> (c: Coordinator)
        ensures
            c.wf(),
            c.blocks() == chain.blocks(),
            c.ledger() == votes.votes(),
            c.voters() == votes.voters(),
            c.rule() == votes.rule(),
            c.rules() == rules,
            c.node_id() == node_id,
            c.round_timeout() == round_timeout,
            c.state() == RoundState::Idle,
            c.candidate() is None,
            c.pool() == Seq::<Transaction>::empty(),
    {
        let c = Coordinator {
            chain,
            votes,
            rules,
            node_id,
            round_timeout,
            state: RoundState::Idle,
            candidate: None,
            pool: Vec::new(),
        };
        proof {
            assert(c.pool@ =~= Seq::<Transaction>::empty());
        }
        c
    }

    /// The chain store, read-only: what strategies and peers see.
    pub fn chain(&self) -> (r: &ChainStore)
        ensures
            r.blocks() == self.blocks(),
    {
        &self.chain
    }

    /// Where the in-flight round stands.
    pub fn current_state(&self) -> (r: RoundState)
        ensures
            r == self.state(),
    {
        self.state
    }

    /// The pending pool, read-only: what a strategy bundles from.
    pub fn pending_transactions(&self) -> (r: &Vec<Transaction>)
        ensures
            r@ == self.pool(),
    {
        &self.pool
    }

    /// Accepts a transaction into the pending pool if it validates against
    /// the committed chain; a rejected transaction is discarded, never
    /// retried.
    pub fn submit_transaction(&mut self, tx: Transaction) -> (r: Result<(), ValidationError>)
        requires
            old(self).wf(),
        ensures
            final(self).wf(),
            r == spec_validate_tx(tx, old(self).blocks()),
            r is Ok ==> final(self).pool() == old(self).pool().push(tx),
            r is Err ==> final(self).pool() == old(self).pool(),
            unchanged_but_pool(*old(self), *final(self)),
    {
        let verdict = validate_transaction(&tx, &self.chain);
        if verdict.is_ok() {
            self.pool.push(tx);
        }
        verdict
    }

    /// Takes a candidate into the round: validates it and, on success,
    /// opens voting with this node's own Accept vote recorded. On failure
    /// the candidate is discarded and the round is aborted; the pool is
    /// preserved either way.
    pub fn begin_round(&mut self, candidate: Block) -> (r: Result<(), ValidationError>)
        requires
            old(self).wf(),
            old(self).state() == RoundState::Idle,
        ensures
            final(self).wf(),
            r == spec_validate_block(
                candidate,
                old(self).blocks(),
                old(self).rules(),
                old(self).voters(),
            ),
            same_config(*old(self), *final(self)),
            final(self).blocks() == old(self).blocks(),
            final(self).pool() == old(self).pool(),
            r is Err ==> final(self).state() == RoundState::Aborted && final(self).candidate()
                is None && final(self).ledger() == old(self).ledger(),
            r is Ok ==> final(self).state() == RoundState::Voting && final(self).candidate()
                == Some(candidate) && vote_recorded(
                old(self).ledger(),
                final(self).ledger(),
                old(self).voters().len() as int,
                old(self).rule(),
                old(self).voters(),
                candidate.hash@,
                old(self).node_id(),
                VoteDecision::Accept,
            ),
    {
        self.state = RoundState::Validating;
        let verdict = validate_block(&candidate, &self.chain, &self.rules, self.votes.validator_set());
        if verdict.is_err() {
            self.state = RoundState::Aborted;
            self.candidate = None;
            return verdict;
        }
        self.votes.record_vote(&candidate.hash, self.node_id, VoteDecision::Accept);
        self.candidate = Some(candidate);
        self.state = RoundState::Voting;
        verdict
    }

    /// Applies one incoming vote while the round is voting, then acts on
    /// the candidate's outcome: commits it when finalized, aborts the
    /// round when rejected, keeps waiting while pending. Returns the
    /// candidate's outcome after the vote.
    pub fn on_vote(&mut self, block_hash: &Vec<u8>, voter_id: u64, decision: VoteDecision) -> (o:
        VoteOutcome)
        requires
            old(self).wf(),
            old(self).state() == RoundState::Voting,
        ensures
            final(self).wf(),
            same_config(*old(self), *final(self)),
            vote_recorded(
                old(self).ledger(),
                final(self).ledger(),
                old(self).voters().len() as int,
                old(self).rule(),
                old(self).voters(),
                block_hash@,
                voter_id,
                decision,
            ),
            ({
                let c = old(self).candidate()->Some_0;
                let after = spec_outcome(
                    final(self).ledger(),
                    old(self).voters().len() as int,
                    old(self).rule(),
                    c.hash@,
                );
                &&& o == after
                &&& after == VoteOutcome::Pending ==> final(self).state() == RoundState::Voting
                    && final(self).candidate() == old(self).candidate() && final(self).blocks()
                    == old(self).blocks() && final(self).pool() == old(self).pool()
                &&& after == VoteOutcome::Rejected ==> final(self).state() == RoundState::Aborted
                    && final(self).candidate() is None && final(self).blocks() == old(self).blocks()
                    && final(self).pool() == old(self).pool()
                &&& after == VoteOutcome::Finalized ==> final(self).candidate() is None && {
                    if ChainStore::spec_extends_head(old(self).blocks(), c) {
                        final(self).state() == RoundState::Idle && final(self).blocks() == old(self).blocks().push(c) && final(self).pool() == pool_without(
                            old(self).pool(),
                            c.transactions@,
                        )
                    } else if ChainStore::spec_already_committed(old(self).blocks(), c) {
                        final(self).state() == RoundState::Idle && final(self).blocks() == old(self).blocks() && final(self).pool() == pool_without(
                            old(self).pool(),
                            c.transactions@,
                        )
                    } else {
                        final(self).state() == RoundState::Aborted && final(self).blocks() == old(self).blocks() && final(self).pool() == old(self).pool()
                    }
                }
            }),
    {
        self.votes.record_vote(block_hash, voter_id, decision);
        let c = self.candidate.take().unwrap();
        let o = self.votes.outcome(&c.hash);
        match o {
            VoteOutcome::Pending => {
                self.candidate = Some(c);
                self.state = RoundState::Voting;
            },
            VoteOutcome::Rejected => {
                self.candidate = None;
                self.state = RoundState::Aborted;
            },
            VoteOutcome::Finalized => {
                self.state = RoundState::Committing;
                let ids = collect_ids(&c.transactions);
                let ghost ctxs = c.transactions@;
                let committed = self.chain.append(c);
                if committed.is_ok() {
                    drop_committed(&mut self.pool, &ids, Ghost(ctxs));
                    self.state = RoundState::Idle;
                } else {
                    self.state = RoundState::Aborted;
                }
                self.candidate = None;
            },
        }
        o
    }

    /// The round's voting window has elapsed: a voting round aborts, its
    /// candidate is dropped, and the pending pool is preserved for the
    /// next proposal attempt; in any other state the timeout is stale and
    /// changes nothing.
    pub fn on_timeout(&mut self)
        requires
            old(self).wf(),
        ensures
            final(self).wf(),
            same_config(*old(self), *final(self)),
            final(self).blocks() == old(self).blocks(),
            final(self).pool() == old(self).pool(),
            final(self).ledger() == old(self).ledger(),
            old(self).state() == RoundState::Voting ==> final(self).state() == RoundState::Aborted
                && final(self).candidate() is None,
            old(self).state() != RoundState::Voting ==> final(self).state() == old(self).state()
                && final(self).candidate() == old(self).candidate(),
    {
        if self.state == RoundState::Voting {
            self.state = RoundState::Aborted;
            self.candidate = None;
        }
    }

    /// A block finalized elsewhere reaches this node: commit it if it
    /// extends the head. When it does, any round in flight was working on
    /// a stale parent and aborts at once; transactions the new head
    /// committed leave the pool.
    pub fn on_new_head(&mut self, block: Block) -> (r: Result<(), ChainError>)
        requires
            old(self).wf(),
        ensures
            final(self).wf(),
            same_config(*old(self), *final(self)),
            final(self).ledger() == old(self).ledger(),
            ChainStore::spec_already_committed(old(self).blocks(), block) ==> r is Ok,
            !ChainStore::spec_already_committed(old(self).blocks(), block) && block.height < old(self).blocks().len() ==> r == Err::<(), ChainError>(ChainError::DuplicateHeight),
            block.height >= old(self).blocks().len() && !ChainStore::spec_extends_head(
                old(self).blocks(),
                block,
            ) ==> r == Err::<(), ChainError>(ChainError::ParentMismatch),
            ChainStore::spec_extends_head(old(self).blocks(), block) ==> r is Ok && final(self).blocks() == old(self).blocks().push(block) && final(self).pool() == pool_without(
                old(self).pool(),
                block.transactions@,
            ) && (old(self).state() == RoundState::Idle ==> final(self).state()
                == RoundState::Idle) && (old(self).state() != RoundState::Idle ==> final(self).state() == RoundState::Aborted && final(self).candidate() is None),
            !ChainStore::spec_extends_head(old(self).blocks(), block) ==> final(self).blocks()
                == old(self).blocks() && final(self).pool() == old(self).pool() && final(self).state() == old(self).state() && final(self).candidate() == old(self).candidate(),
    {
        let ids = collect_ids(&block.transactions);
        let ghost btxs = block.transactions@;
        let h0 = self.chain.head().height;
        let r = self.chain.append(block);
        let h1 = self.chain.head().height;
        if h1 != h0 {
            drop_committed(&mut self.pool, &ids, Ghost(btxs));
            if !(self.state == RoundState::Idle) {
                self.state = RoundState::Aborted;
                self.candidate = None;
            }
        }
        r
    }

    /// An aborted round clears and the node returns to idle, ready to
    /// propose against the current head.
    pub fn restart(&mut self)
        requires
            old(self).wf(),
            old(self).state() == RoundState::Aborted,
        ensures
            final(self).wf(),
            same_config(*old(self), *final(self)),
            final(self).blocks() == old(self).blocks(),
            final(self).pool() == old(self).pool(),
            final(self).ledger() == old(self).ledger(),
            final(self).state() == RoundState::Idle,
            final(self).candidate() is None,
    {
        self.state = RoundState::Idle;
        self.candidate = None;
    }
}

/// What accepting a transaction may not change: everything but the pool.
pub open spec fn unchanged_but_pool(a: Coordinator, b: Coordinator) -> bool {
    &&& same_config(a, b)
    &&& b.blocks() == a.blocks()
    &&& b.ledger() == a.ledger()
    &&& b.state() == a.state()
    &&& b.candidate() == a.candidate()
}

/// What no coordinator step may change: the configuration and the voter
/// roll.
pub open spec fn same_config(a: Coordinator, b: Coordinator) -> bool {
    &&& b.rules() == a.rules()
    &&& b.rule() == a.rule()
    &&& b.voters() == a.voters()
    &&& b.node_id() == a.node_id()
    &&& b.round_timeout() == a.round_timeout()
}

/// The ids of a block's transactions, each as its own byte vector.
fn collect_ids(txs: &Vec<Transaction>) -> (r: Vec<Vec<u8>>)
    ensures
        r@.len() == txs@.len(),
        forall|i: int| 0 <= i < txs@.len() ==> (#[trigger] r@[i])@ == txs@[i].id@,
{
    let mut r: Vec<Vec<u8>> = Vec::new();
    for i in 0..txs.len()
        invariant
            r@.len() == i,
            forall|k: int| 0 <= k < i ==> (#[trigger] r@[k])@ == txs@[k].id@,
    {
        r.push(copy_bytes(&txs[i].id));
    }
    r
}

/// Whether one of `ids` spells `id`.
fn id_in_exec(ids: &Vec<Vec<u8>>, id: &Vec<u8>) -> (r: bool)
    ensures
        r == exists|i: int| 0 <= i < ids@.len() && (#[trigger] ids@[i])@ == id@,
{
    for i in 0..ids.len()
        invariant
            forall|k: int| 0 <= k < i ==> (#[trigger] ids@[k])@ != id@,
    {
        if bytes_eq(&ids[i], id) {
            return true;
        }
    }
    false
}

/// Drops from the pool, in place and keeping order, every transaction
/// whose id is among `ids`: the ids of the transactions `committed` holds.
fn drop_committed(pool: &mut Vec<Transaction>, ids: &Vec<Vec<u8>>, committed: Ghost<Seq<Transaction>>)
    requires
        ids@.len() == committed@.len(),
        forall|i: int| 0 <= i < ids@.len() ==> (#[trigger] ids@[i])@ == committed@[i].id@,
    ensures
        final(pool)@ == pool_without(old(pool)@, committed@),
{
    let ghost pool0 = pool@;
    let mut i: usize = 0;
    let ghost k: int = 0;
    while i < pool.len()
        invariant
            0 <= k <= pool0.len(),
            i == pool_without(pool0.take(k), committed@).len(),
            pool@ =~= pool_without(pool0.take(k), committed@) + pool0.skip(k),
            i <= pool@.len(),
            ids@.len() == committed@.len(),
            forall|m: int| 0 <= m < ids@.len() ==> (#[trigger] ids@[m])@ == committed@[m].id@,
        decreases pool0.len() - k,
    {
        proof {
            assert(pool@[i as int] == pool0[k]);
            assert(pool0.take(k + 1).drop_last() =~= pool0.take(k));
            assert(pool0.take(k + 1).last() == pool0[k]);
        }
        let hit = id_in_exec(ids, &pool[i].id);
        proof {
            assert(hit == tx_in(committed@, pool0[k].id@)) by {
                if hit {
                    let m = choose|m: int| 0 <= m < ids@.len() && (#[trigger] ids@[m])@ == pool0[k].id@;
                    assert(committed@[m].id@ == pool0[k].id@);
                } else {
                    if tx_in(committed@, pool0[k].id@) {
                        let m = choose|m: int|
                            0 <= m < committed@.len() && (#[trigger] committed@[m]).id@ == pool0[k].id@;
                        assert(ids@[m]@ == pool0[k].id@);
                    }
                }
            }
        }
        if hit {
            pool.remove(i);
            proof {
                k = k + 1;
                assert(pool@ =~= pool_without(pool0.take(k), committed@) + pool0.skip(k));
            }
        } else {
            i = i + 1;
            proof {
                k = k + 1;
                assert(pool_without(pool0.take(k), committed@) == pool_without(
                    pool0.take(k - 1),
                    committed@,
                ).push(pool0[k - 1]));
                assert(pool@ =~= pool_without(pool0.take(k), committed@) + pool0.skip(k));
            }
        }
    }
    proof {
        assert(pool0.take(k) =~= pool0);
        assert(pool0.skip(k) =~= Seq::<Transaction>::empty());
        assert(pool@ =~= pool_without(pool0, committed@));
    }
}

/// A copy of a byte vector.
fn copy_bytes(src: &Vec<u8>) -> (r: Vec<u8>)
    ensures
        r@ == src@,
{
    let mut r: Vec<u8> = Vec::new();
    r.extend_from_slice(src.as_slice());
    proof {
        assert(r@ =~= src@);
    }
    r
}

} // verus!
