//! The validator: pure, side-effect-free acceptance rules for blocks and
//! transactions against a read-only chain snapshot.
//!
//! The checks run in a fixed order and the first failure wins: structural
//! well-formedness, parent linkage, per-transaction signature and nonce
//! order, and finally the algorithm-specific proof.

use vstd::bytes::spec_u64_from_le_bytes;
use vstd::bytes::spec_u64_to_le_bytes;
use vstd::bytes::u64_from_le_bytes;
use vstd::bytes::u64_to_le_bytes;
use vstd::prelude::*;

use crate::block::account_key;
use crate::block::block_hash_ok;
use crate::block::Block;
use crate::block::BlockProof;
use crate::block::compute_block_hash;
use crate::block::keyed_digest;
use crate::block::spec_account_key;
use crate::block::spec_block_hash;
use crate::block::spec_keyed_digest;
use crate::block::Transaction;
use crate::block::tx_message;
use crate::block::tx_well_signed;
use crate::chain::ChainStore;
use crate::chain::last_committed_nonce;
use crate::chain::txs_max_nonce;
use crate::utils::bytes_eq;
use crate::utils::sha256;
use crate::utils::sha256_of;
use crate::validator_set::spec_weighted_choice;
use crate::validator_set::total_stake_of;
use crate::validator_set::ValidatorInfo;
use crate::validator_set::ValidatorSet;

verus! {

/// Why a candidate block or transaction was rejected. Malformed input is
/// never retried: the candidate is discarded.
#[derive(Clone, Copy, Debug, PartialEq, Eq)]
pub enum ValidationError {
    /// The block is structurally unacceptable: absent proposer, a height
    /// that does not sit one above the snapshot head, or a hash that is not
    /// the digest of the content.
    MalformedBlock,
    /// The block's parent hash is not the snapshot head's hash.
    ParentMismatch,
    /// A transaction's id or signature does not match its content.
    InvalidSignature,
    /// A transaction's nonce does not exceed its sender's last committed
    /// nonce (or an earlier nonce in the same block).
    NonceReplay,
    /// The algorithm-specific proof does not hold.
    ProofInvalid,
}

/// The algorithm-specific acceptance rules, chosen by configuration.
#[derive(Clone, Copy, Debug, PartialEq, Eq)]
pub enum ProofRules {
    /// Proof of work: the block's proof value must fall below `target`.
    Work { target: u64 },
    /// Proof of stake: the proposer must be the round's stake-weighted
    /// choice and must have stake-signed the proposal.
    Stake,
}

// ---------------------------------------------------------------------------
// Proof-of-work and proof-of-stake acceptance, in specification
// ---------------------------------------------------------------------------

/// The scalar a block's proof-of-work is judged by: its hash's first eight
/// bytes read as a little-endian integer.
pub open spec fn spec_pow_value(b: Block) -> u64 {
    spec_u64_from_le_bytes(spec_block_hash(b).take(8))
}

/// The seed of round `round` on top of the parent with hash `parent_hash`:
/// a verifiable pseudo-random function of the two.
pub open spec fn spec_round_seed(parent_hash: Seq<u8>, round: u64) -> Seq<u8> {
    sha256_of(parent_hash + spec_u64_to_le_bytes(round))
}

/// The stake unit the round's seed picks, out of `total`.
pub open spec fn spec_stake_pick(parent_hash: Seq<u8>, round: u64, total: int) -> int
    recommends
        total > 0,
{
    spec_u64_from_le_bytes(spec_round_seed(parent_hash, round).take(8)) as int % total
}

/// The validator eligible to propose in round `round` on top of
/// `parent_hash`: the stake-weighted choice under the round's seed.
pub open spec fn spec_eligible_proposer(
    parent_hash: Seq<u8>,
    round: u64,
    members: Seq<ValidatorInfo>,
) -> u64 {
    spec_weighted_choice(
        members,
        spec_stake_pick(parent_hash, round, total_stake_of(members)),
    )
}

/// The message a proposer stake-signs: the parent hash and the height.
pub open spec fn spec_stake_msg(parent_hash: Seq<u8>, height: u64) -> Seq<u8> {
    parent_hash + spec_u64_to_le_bytes(height)
}

/// Whether a block's seal satisfies the configured rules.
pub open spec fn spec_proof_ok(b: Block, rules: ProofRules, members: Seq<ValidatorInfo>) -> bool {
    match rules {
        ProofRules::Work { target } => b.proof is Work && spec_pow_value(b) < target,
        ProofRules::Stake => {
            &&& total_stake_of(members) > 0
            &&& b.proposer_id == spec_eligible_proposer(b.parent_hash@, b.height, members)
            &&& match b.proof {
                BlockProof::Stake { signature } => signature@ == spec_keyed_digest(
                    spec_account_key(b.proposer_id),
                    spec_stake_msg(b.parent_hash@, b.height),
                ),
                BlockProof::Work { .. } => false,
            }
        },
    }
}

// ---------------------------------------------------------------------------
// Transaction acceptance
// ---------------------------------------------------------------------------

/// What a single transaction must clear against a chain snapshot: a sound
/// id and signature, and a nonce above the sender's last committed one.
pub open spec fn spec_validate_tx(tx: Transaction, chain: Seq<Block>) -> Result<
    (),
    ValidationError,
> {
    if !tx_well_signed(tx) {
        Err(ValidationError::InvalidSignature)
    } else if tx.nonce <= last_committed_nonce(chain, tx.sender) {
        Err(ValidationError::NonceReplay)
    } else {
        Ok(())
    }
}

/// The nonce a transaction must exceed when it follows `prefix` within one
/// block: its sender's last committed nonce, or a higher one used earlier
/// in the same block.
pub open spec fn spec_effective_nonce(
    chain: Seq<Block>,
    prefix: Seq<Transaction>,
    sender: u64,
) -> u64 {
    let committed = last_committed_nonce(chain, sender);
    let in_block = txs_max_nonce(prefix, sender);
    if in_block > committed {
        in_block
    } else {
        committed
    }
}

/// Checks a block's transactions in order, from position `j` on; the first
/// failure wins.
pub open spec fn spec_txs_check(chain: Seq<Block>, txs: Seq<Transaction>, j: int) -> Result<
    (),
    ValidationError,
>
    decreases txs.len() - j,
{
    if j < 0 || j >= txs.len() {
        Ok(())
    } else if !tx_well_signed(txs[j]) {
        Err(ValidationError::InvalidSignature)
    } else if txs[j].nonce <= spec_effective_nonce(chain, txs.take(j), txs[j].sender) {
        Err(ValidationError::NonceReplay)
    } else {
        spec_txs_check(chain, txs, j + 1)
    }
}

// ---------------------------------------------------------------------------
// Block acceptance
// ---------------------------------------------------------------------------

/// What a candidate block must clear, in order: structure, parent linkage,
/// each transaction's signature and nonce, and the algorithm-specific
/// proof. The first failure wins.
pub open spec fn spec_validate_block(
    b: Block,
    chain: Seq<Block>,
    rules: ProofRules,
    members: Seq<ValidatorInfo>,
) -> Result<(), ValidationError> {
    if b.proposer_id == 0 || b.height != chain.len() || !block_hash_ok(b) {
        Err(ValidationError::MalformedBlock)
    } else if b.parent_hash@ != chain.last().hash@ {
        Err(ValidationError::ParentMismatch)
    } else {
        match spec_txs_check(chain, b.transactions@, 0) {
            Err(e) => Err(e),
            Ok(_) => if spec_proof_ok(b, rules, members) {
                Ok(())
            } else {
                Err(ValidationError::ProofInvalid)
            },
        }
    }
}

// ---------------------------------------------------------------------------
// Laws
// ---------------------------------------------------------------------------

/// Replay protection: a transaction whose nonce does not exceed its
/// sender's last committed nonce is always rejected.
pub proof fn lemma_nonce_replay_rejected(tx: Transaction, chain: Seq<Block>)
    requires
        tx.nonce <= last_committed_nonce(chain, tx.sender),
    ensures
        spec_validate_tx(tx, chain) is Err,
{
}

/// Work must be shown: under proof-of-work rules a candidate whose proof
/// value does not fall below the target is always rejected, whatever its
/// other fields hold.
pub proof fn lemma_pow_target_rejected(
    b: Block,
    chain: Seq<Block>,
    target: u64,
    members: Seq<ValidatorInfo>,
)
    requires
        spec_pow_value(b) >= target,
    ensures
        spec_validate_block(b, chain, ProofRules::Work { target }, members) is Err,
{
}

// ---------------------------------------------------------------------------
// Executable checks
// ---------------------------------------------------------------------------

/// Whether a transaction's id and signature match its content.
pub fn check_tx_signed(t: &Transaction) -> (r: bool)
    ensures
        r == tx_well_signed(*t),
{
    let msg = tx_message(t.sender, t.nonce, &t.payload);
    let id = sha256(msg.as_slice());
    if !bytes_eq(&id, &t.id) {
        return false;
    }
    let key = account_key(t.sender);
    let sig = keyed_digest(&key, &msg);
    bytes_eq(&sig, &t.signature)
}

/// Validates one transaction against the chain snapshot. Pure and
/// side-effect-free: safe to call repeatedly.
pub fn validate_transaction(tx: &Transaction, chain: &ChainStore) -> (r: Result<
    (),
    ValidationError,
>)
    ensures
        r == spec_validate_tx(*tx, chain.blocks()),
{
    if !check_tx_signed(tx) {
        return Err(ValidationError::InvalidSignature);
    }
    let committed = chain.last_nonce(tx.sender);
    if tx.nonce <= committed {
        return Err(ValidationError::NonceReplay);
    }
    Ok(())
}

/// The greatest nonce `account` uses within the first `upto` transactions.
fn txs_prefix_max_nonce(txs: &Vec<Transaction>, upto: usize, account: u64) -> (r: u64)
    requires
        upto <= txs@.len(),
    ensures
        r == txs_max_nonce(txs@.take(upto as int), account),
{
    let mut m: u64 = 0;
    for i in 0..upto
        invariant
            upto <= txs@.len(),
            m == txs_max_nonce(txs@.take(i as int), account),
    {
        if txs[i].sender == account && txs[i].nonce > m {
            m = txs[i].nonce;
        }
        proof {
            assert(txs@.take(i + 1).drop_last() =~= txs@.take(i as int));
            assert(txs@.take(i + 1).last() == txs@[i as int]);
        }
    }
    m
}

/// The scalar a block's proof-of-work is judged by.
pub fn pow_value(b: &Block) -> (r: u64)
    ensures
        r == spec_pow_value(*b),
{
    let digest = compute_block_hash(
        b.height,
        &b.parent_hash,
        b.timestamp,
        b.proposer_id,
        &b.proof,
        &b.transactions,
    );
    let first = u64_from_le_bytes(&digest.as_slice()[0..8]);
    proof {
        assert(digest@.subrange(0, 8) =~= spec_block_hash(*b).take(8));
    }
    first
}

/// The seed of round `round` on top of `parent_hash`.
pub fn round_seed(parent_hash: &Vec<u8>, round: u64) -> (r: Vec<u8>)
    ensures
        r@ == spec_round_seed(parent_hash@, round),
        r@.len() == 32,
{
    let mut buf: Vec<u8> = Vec::new();
    buf.extend_from_slice(parent_hash.as_slice());
    let round_bytes = u64_to_le_bytes(round);
    buf.extend_from_slice(round_bytes.as_slice());
    proof {
        assert(buf@ =~= parent_hash@ + spec_u64_to_le_bytes(round));
    }
    sha256(buf.as_slice())
}

/// The validator eligible to propose in round `round` on top of
/// `parent_hash`, or 0 when the set holds no stake at all.
pub fn eligible_proposer(parent_hash: &Vec<u8>, round: u64, vals: &ValidatorSet) -> (r: u64)
    ensures
        total_stake_of(vals.members()) > 0 ==> r == spec_eligible_proposer(
            parent_hash@,
            round,
            vals.members(),
        ),
        total_stake_of(vals.members()) == 0 ==> r == 0,
{
    let total = vals.total_stake();
    if total == 0 {
        return 0;
    }
    let seed = round_seed(parent_hash, round);
    let drawn = u64_from_le_bytes(&seed.as_slice()[0..8]);
    proof {
        assert(seed@.subrange(0, 8) =~= spec_round_seed(parent_hash@, round).take(8));
    }
    let pick = drawn % total;
    vals.weighted_choice(pick)
}

/// Validates a candidate block against the chain snapshot under the
/// configured rules and validator set. Pure and side-effect-free.
pub fn validate_block(
    b: &Block,
    chain: &ChainStore,
    rules: &ProofRules,
    vals: &ValidatorSet,
) -> (r: Result<(), ValidationError>)
    ensures
        r == spec_validate_block(*b, chain.blocks(), *rules, vals.members()),
{
    let head = chain.head();
    let structural_height_ok = head.height < u64::MAX && b.height == head.height + 1;
    if b.proposer_id == 0 || !structural_height_ok {
        return Err(ValidationError::MalformedBlock);
    }
    let sealed = {
        let expected = compute_block_hash(
            b.height,
            &b.parent_hash,
            b.timestamp,
            b.proposer_id,
            &b.proof,
            &b.transactions,
        );
        bytes_eq(&expected, &b.hash)
    };
    if !sealed {
        return Err(ValidationError::MalformedBlock);
    }
    if !bytes_eq(&b.parent_hash, &head.hash) {
        return Err(ValidationError::ParentMismatch);
    }
    let ghost chain_seq = chain.blocks();
    let n = b.transactions.len();
    for j in 0..n
        invariant
            n == b.transactions@.len(),
            spec_txs_check(chain_seq, b.transactions@, 0) == spec_txs_check(
                chain_seq,
                b.transactions@,
                j as int,
            ),
            chain_seq == chain.blocks(),
            b.proposer_id != 0,
            b.height == chain_seq.len(),
            block_hash_ok(*b),
            b.parent_hash@ == chain_seq.last().hash@,
    {
        let tx = &b.transactions[j];
        if !check_tx_signed(tx) {
            proof {
                assert(!tx_well_signed(b.transactions@[j as int]));
                assert(spec_txs_check(chain_seq, b.transactions@, j as int) == Err::<
                    (),
                    ValidationError,
                >(ValidationError::InvalidSignature));
            }
            return Err(ValidationError::InvalidSignature);
        }
        let committed = chain.last_nonce(tx.sender);
        let in_block = txs_prefix_max_nonce(&b.transactions, j, tx.sender);
        let effective = if in_block > committed {
            in_block
        } else {
            committed
        };
        if tx.nonce <= effective {
            proof {
                assert(effective == spec_effective_nonce(
                    chain_seq,
                    b.transactions@.take(j as int),
                    tx.sender,
                ));
                assert(spec_txs_check(chain_seq, b.transactions@, j as int) == Err::<
                    (),
                    ValidationError,
                >(ValidationError::NonceReplay));
            }
            return Err(ValidationError::NonceReplay);
        }
    }
    let proof_ok: bool = match rules {
        ProofRules::Work { target } => {
            match &b.proof {
                BlockProof::Work { .. } => pow_value(b) < *target,
                BlockProof::Stake { .. } => false,
            }
        },
        ProofRules::Stake => {
            let total = vals.total_stake();
            if total == 0 {
                false
            } else if b.proposer_id != eligible_proposer(&b.parent_hash, b.height, vals) {
                false
            } else {
                match &b.proof {
                    BlockProof::Stake { signature } => {
                        let key = account_key(b.proposer_id);
                        let mut msg: Vec<u8> = Vec::new();
                        msg.extend_from_slice(b.parent_hash.as_slice());
                        let height_bytes = u64_to_le_bytes(b.height);
                        msg.extend_from_slice(height_bytes.as_slice());
                        proof {
                            assert(msg@ =~= spec_stake_msg(b.parent_hash@, b.height));
                        }
                        let expected = keyed_digest(&key, &msg);
                        bytes_eq(&expected, signature)
                    },
                    BlockProof::Work { .. } => false,
                }
            }
        },
    };
    if proof_ok {
        Ok(())
    } else {
        Err(ValidationError::ProofInvalid)
    }
}

} // verus!
