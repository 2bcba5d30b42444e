//! Consensus strategies: the producers of candidate blocks.
//!
//! Proof of work searches the nonce space in bounded slices, so a new head
//! can cancel the in-flight search between slices; proof of stake proposes
//! instantly when, and only when, this node is the round's stake-weighted
//! choice. Inability to propose is not an error: it is the expected common
//! case.

use vstd::bytes::spec_u64_from_le_bytes;
use vstd::bytes::spec_u64_to_le_bytes;
use vstd::prelude::*;

use crate::block::account_key;
use crate::block::Block;
use crate::block::block_hash_ok;
use crate::block::BlockProof;
use crate::block::keyed_digest;
use crate::block::make_block;
use crate::block::spec_proof_bytes;
use crate::block::spec_tx_ids_bytes;
use crate::block::Transaction;
use crate::chain::ChainStore;
use crate::utils::sha256_of;
use crate::validator::eligible_proposer;
use crate::validator::spec_eligible_proposer;
use crate::validator::spec_pow_value;
use crate::validator::spec_proof_ok;
use crate::validator::spec_stake_msg;
use crate::validator::ProofRules;
use crate::validator_set::total_stake_of;
use crate::validator_set::ValidatorSet;

verus! {

/// The proof-of-work value of a candidate assembled from the given parts
/// and sealed with `nonce`: what the miner's search drives below the
/// target.
pub open spec fn spec_work_value(
    height: u64,
    parent_hash: Seq<u8>,
    timestamp: u64,
    proposer_id: u64,
    nonce: u64,
    txs: Seq<Transaction>,
) -> u64 {
    spec_u64_from_le_bytes(
        sha256_of(
            spec_u64_to_le_bytes(height) + parent_hash + spec_u64_to_le_bytes(timestamp)
                + spec_u64_to_le_bytes(proposer_id) + spec_proof_bytes(
                BlockProof::Work { nonce },
            ) + spec_tx_ids_bytes(txs),
        ).take(8),
    )
}

/// Proof-of-work block production: searches for a nonce that drives the
/// block hash below the difficulty target.
pub struct PoWConsensus {
    /// The difficulty target candidates must fall below.
    pub target: u64,
    /// This node's identity, stamped on proposed blocks; never 0.
    pub node_id: u64,
    /// Where the in-flight nonce search stands; reset by a new head.
    pub next_nonce: u64,
}

impl PoWConsensus {
    /// A strategy for `node_id` at difficulty `target`, with the search at
    /// the start of the nonce space.
    pub fn new(target: u64, node_id: u64) -> (c: PoWConsensus)
        ensures
            c.target == target,
            c.node_id == node_id,
            c.next_nonce == 0,
    {
        PoWConsensus { target, node_id, next_nonce: 0 }
    }

    /// A new head makes the in-flight search stale: restart it. The next
    /// proposal slice then mines against the new parent from nonce 0.
    pub fn on_new_head(&mut self)
        ensures
            final(self).target == old(self).target,
            final(self).node_id == old(self).node_id,
            final(self).next_nonce == 0,
    {
        self.next_nonce = 0;
    }

    /// Mines one slice of at most `attempts` nonces on top of the current
    /// head. Returns the first candidate in the slice whose work value
    /// falls below the target, if any; otherwise records where the search
    /// stopped, so the next slice resumes there (and a new head between
    /// slices cancels cleanly).
    pub fn propose(
        &mut self,
        chain: &ChainStore,
        transactions: Vec<Transaction>,
        timestamp: u64,
        attempts: u64,
    ) -> (r: Option<Block>)
        ensures
            final(self).target == old(self).target,
            final(self).node_id == old(self).node_id,
            old(self).node_id != 0 && chain.blocks().last().height < u64::MAX ==> match r {
                Some(b) => {
                    &&& b.height == chain.blocks().last().height + 1
                    &&& b.parent_hash@ == chain.blocks().last().hash@
                    &&& b.timestamp == timestamp
                    &&& b.proposer_id == old(self).node_id
                    &&& b.transactions@ == transactions@
                    &&& block_hash_ok(b)
                    &&& spec_pow_value(b) < old(self).target
                    &&& match b.proof {
                        BlockProof::Work { nonce } => {
                            &&& old(self).next_nonce <= nonce
                            &&& (nonce as int) < old(self).next_nonce + attempts
                            &&& forall|m: u64|
                                old(self).next_nonce <= m < nonce ==> #[trigger] spec_work_value(
                                    b.height,
                                    b.parent_hash@,
                                    timestamp,
                                    old(self).node_id,
                                    m,
                                    transactions@,
                                ) >= old(self).target
                        },
                        BlockProof::Stake { .. } => false,
                    }
                },
                None => forall|m: u64|
                    old(self).next_nonce <= m && (m as int) < old(self).next_nonce + attempts
                        ==> #[trigger] spec_work_value(
                        (chain.blocks().last().height + 1) as u64,
                        chain.blocks().last().hash@,
                        timestamp,
                        old(self).node_id,
                        m,
                        transactions@,
                    ) >= old(self).target,
            },
            old(self).node_id == 0 || chain.blocks().last().height == u64::MAX ==> r is None
                && final(self).next_nonce == old(self).next_nonce,
    {
        let head = chain.head();
        if self.node_id == 0 || head.height == u64::MAX {
            return None;
        }
        let height = head.height + 1;
        let parent = copy_bytes(&head.hash);
        let ghost start = self.next_nonce;
        let mut tried: u64 = 0;
        while tried < attempts
            invariant
                self.target == old(self).target,
                self.node_id == old(self).node_id,
                self.node_id != 0,
                tried <= attempts,
                self.next_nonce == start + tried,
                start == old(self).next_nonce,
                height == chain.blocks().last().height + 1,
                parent@ == chain.blocks().last().hash@,
                forall|m: u64|
                    start <= m < self.next_nonce ==> #[trigger] spec_work_value(
                        height,
                        chain.blocks().last().hash@,
                        timestamp,
                        self.node_id,
                        m,
                        transactions@,
                    ) >= self.target,
            decreases attempts - tried,
        {
            let nonce = self.next_nonce;
            let seal = BlockProof::Work { nonce };
            let digest = crate::block::compute_block_hash(
                height,
                &parent,
                timestamp,
                self.node_id,
                &seal,
                &transactions,
            );
            let value = vstd::bytes::u64_from_le_bytes(&digest.as_slice()[0..8]);
            proof {
                assert(digest@.subrange(0, 8) =~= digest@.take(8));
                assert(value == spec_work_value(
                    height,
                    parent@,
                    timestamp,
                    self.node_id,
                    nonce,
                    transactions@,
                ));
            }
            if value < self.target {
                let b = make_block(height, parent, timestamp, self.node_id, seal, transactions);
                proof {
                    assert(crate::block::spec_block_msg(b) == spec_u64_to_le_bytes(height)
                        + chain.blocks().last().hash@ + spec_u64_to_le_bytes(timestamp)
                        + spec_u64_to_le_bytes(self.node_id) + spec_proof_bytes(seal)
                        + spec_tx_ids_bytes(transactions@));
                    assert(spec_pow_value(b) == value);
                }
                return Some(b);
            }
            if nonce == u64::MAX {
                return None;
            }
            self.next_nonce = nonce + 1;
            tried = tried + 1;
        }
        None
    }
}

/// A copy of a byte vector.
fn copy_bytes(src: &Vec<u8>) -> (r: Vec<u8>)
    ensures
        r@ == src@,
{
    let mut r: Vec<u8> = Vec::new();
    r.extend_from_slice(src.as_slice());
    proof {
        assert(r@ =~= src@);
    }
    r
}

/// Proof-of-stake block production: proposes exactly when this node is the
/// round's stake-weighted choice; no search is run.
pub struct PoSConsensus {
    /// This node's identity, stamped on proposed blocks; never 0.
    pub node_id: u64,
}

impl PoSConsensus {
    /// A strategy for `node_id`.
    pub fn new(node_id: u64) -> (c: PoSConsensus)
        ensures
            c.node_id == node_id,
    {
        PoSConsensus { node_id }
    }

    /// A new head needs no cancellation here: proof of stake keeps no
    /// in-flight proposal work.
    pub fn on_new_head(&self) {
    }

    /// Proposes on top of the current head exactly when this node is the
    /// round's eligible proposer, sealing the block with its stake
    /// signature. Yielding nothing is the expected case: another validator
    /// owns the round.
    pub fn propose(
        &self,
        chain: &ChainStore,
        vals: &ValidatorSet,
        transactions: Vec<Transaction>,
        timestamp: u64,
    ) -> (r: Option<Block>)
        ensures
            ({
                let head = chain.blocks().last();
                let eligible = head.height < u64::MAX && self.node_id != 0 && total_stake_of(
                    vals.members(),
                ) > 0 && spec_eligible_proposer(
                    head.hash@,
                    (head.height + 1) as u64,
                    vals.members(),
                ) == self.node_id;
                match r {
                    Some(b) => {
                        &&& eligible
                        &&& b.height == head.height + 1
                        &&& b.parent_hash@ == head.hash@
                        &&& b.timestamp == timestamp
                        &&& b.proposer_id == self.node_id
                        &&& b.transactions@ == transactions@
                        &&& block_hash_ok(b)
                        &&& spec_proof_ok(b, ProofRules::Stake, vals.members())
                    },
                    None => !eligible,
                }
            }),
    {
        let head = chain.head();
        if self.node_id == 0 || head.height == u64::MAX {
            return None;
        }
        let height = head.height + 1;
        let total = vals.total_stake();
        if total == 0 {
            return None;
        }
        let selected = eligible_proposer(&head.hash, height, vals);
        if selected != self.node_id {
            return None;
        }
        let key = account_key(self.node_id);
        let msg = stake_message(&head.hash, height);
        let signature = keyed_digest(&key, &msg);
        let b = make_block(
            height,
            copy_bytes(&head.hash),
            timestamp,
            self.node_id,
            BlockProof::Stake { signature },
            transactions,
        );
        Some(b)
    }
}

/// The message a proposer stake-signs for a round.
fn stake_message(parent_hash: &Vec<u8>, height: u64) -> (r: Vec<u8>)
    ensures
        r@ == spec_stake_msg(parent_hash@, height),
{
    let mut r: Vec<u8> = Vec::new();
    r.extend_from_slice(parent_hash.as_slice());
    let height_bytes = vstd::bytes::u64_to_le_bytes(height);
    r.extend_from_slice(height_bytes.as_slice());
    proof {
        assert(r@ =~= spec_stake_msg(parent_hash@, height));
    }
    r
}

} // verus!
