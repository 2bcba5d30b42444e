//! Blocks and transactions, and the byte encodings their digests are
//! computed over.
//!
//! A block's `hash` field is the SHA-256 digest of all its other fields, so
//! a block is content-addressed; a transaction's `id` is likewise the digest
//! of its id-determining fields (sender, nonce, payload). Signing is a keyed
//! digest over those same fields: the cryptographic scheme itself is an
//! external collaborator of this core, so the digest stands in for it and
//! every rule about *when* a signature must check is stated and verified
//! here.

use vstd::bytes::spec_u64_to_le_bytes;
use vstd::bytes::u64_to_le_bytes;
use vstd::prelude::*;

use crate::utils::sha256;
use crate::utils::sha256_of;

verus! {

/// A transfer of authority from a sender account, ordered by nonce.
#[derive(Clone, Debug)]
pub struct Transaction {
    /// Digest of the id-determining fields: sender, nonce, payload.
    pub id: Vec<u8>,
    /// The account that issued the transaction; its key is derived from it.
    pub sender: u64,
    /// Opaque payload; execution semantics are outside this core.
    pub payload: Vec<u8>,
    /// Replay protection: must exceed the sender's last committed nonce.
    pub nonce: u64,
    /// Keyed digest over the id-determining fields.
    pub signature: Vec<u8>,
}

/// The algorithm-specific seal of a block.
#[derive(Clone, Debug)]
pub enum BlockProof {
    /// Proof of work: the nonce found by the search.
    Work { nonce: u64 },
    /// Proof of stake: the proposer's stake signature over the block's
    /// proposal message.
    Stake { signature: Vec<u8> },
}

/// A block: a height-stamped bundle of transactions chained to its parent.
#[derive(Clone, Debug)]
pub struct Block {
    /// Position in the chain; the genesis block has height 0.
    pub height: u64,
    /// The hash of the block at `height - 1` when this block was proposed.
    pub parent_hash: Vec<u8>,
    /// Proposal time, in seconds; not interpreted by this core.
    pub timestamp: u64,
    /// The transactions committed by this block, in order.
    pub transactions: Vec<Transaction>,
    /// The validator that proposed the block; 0 marks an absent proposer.
    pub proposer_id: u64,
    /// The algorithm-specific seal.
    pub proof: BlockProof,
    /// Digest of all other fields; fixed at construction.
    pub hash: Vec<u8>,
}

// ---------------------------------------------------------------------------
// Byte encodings
// ---------------------------------------------------------------------------

/// The key bytes of an account or validator identity. Key material is an
/// external collaborator's concern; within this core a key is derived from
/// the identity itself.
pub open spec fn spec_account_key(account: u64) -> Seq<u8> {
    spec_u64_to_le_bytes(account)
}

/// The message a transaction's id and signature are computed over: its
/// id-determining fields.
pub open spec fn spec_tx_msg(sender: u64, nonce: u64, payload: Seq<u8>) -> Seq<u8> {
    spec_u64_to_le_bytes(sender) + spec_u64_to_le_bytes(nonce) + payload
}

/// A transaction's id: the digest of its id-determining fields.
pub open spec fn spec_tx_id(sender: u64, nonce: u64, payload: Seq<u8>) -> Seq<u8> {
    sha256_of(spec_tx_msg(sender, nonce, payload))
}

/// A keyed digest: the stand-in for signing `msg` with `key`.
pub open spec fn spec_keyed_digest(key: Seq<u8>, msg: Seq<u8>) -> Seq<u8> {
    sha256_of(key + msg)
}

/// Whether a transaction's id and signature are the ones its content calls
/// for: the id is the digest of the id-determining fields and the signature
/// is the sender's keyed digest over the same message.
pub open spec fn tx_well_signed(t: Transaction) -> bool {
    &&& t.id@ == spec_tx_id(t.sender, t.nonce, t.payload@)
    &&& t.signature@ == spec_keyed_digest(
        spec_account_key(t.sender),
        spec_tx_msg(t.sender, t.nonce, t.payload@),
    )
}

/// The encoding of a block's seal within the block message.
pub open spec fn spec_proof_bytes(seal: BlockProof) -> Seq<u8> {
    match seal {
        BlockProof::Work { nonce } => { seq![0u8] + spec_u64_to_le_bytes(nonce) },
        BlockProof::Stake { signature } => { seq![1u8] + signature@ },
    }
}

/// The concatenated ids of a sequence of transactions.
pub open spec fn spec_tx_ids_bytes(txs: Seq<Transaction>) -> Seq<u8>
    decreases txs.len(),
{
    if txs.len() == 0 {
        Seq::empty()
    } else {
        spec_tx_ids_bytes(txs.drop_last()) + txs.last().id@
    }
}

/// The message a block's hash is computed over: every field but the hash
/// itself; transactions enter through their ids.
pub open spec fn spec_block_msg(b: Block) -> Seq<u8> {
    spec_u64_to_le_bytes(b.height) + b.parent_hash@ + spec_u64_to_le_bytes(b.timestamp)
        + spec_u64_to_le_bytes(b.proposer_id) + spec_proof_bytes(b.proof)
        + spec_tx_ids_bytes(b.transactions@)
}

/// The hash of a block: the digest of its message.
pub open spec fn spec_block_hash(b: Block) -> Seq<u8> {
    sha256_of(spec_block_msg(b))
}

/// Whether a block's stored hash is the digest of its content.
pub open spec fn block_hash_ok(b: Block) -> bool {
    b.hash@ == spec_block_hash(b)
}

// ---------------------------------------------------------------------------
// Executable builders
// ---------------------------------------------------------------------------

/// The key bytes of an account or validator identity.
pub fn account_key(account: u64) -> (r: Vec<u8>)
    ensures
        r@ == spec_account_key(account),
{
    u64_to_le_bytes(account)
}

/// The message a transaction's id and signature are computed over.
pub fn tx_message(sender: u64, nonce: u64, payload: &Vec<u8>) -> (r: Vec<u8>)
    ensures
        r@ == spec_tx_msg(sender, nonce, payload@),
{
    let mut r = u64_to_le_bytes(sender);
    let nonce_bytes = u64_to_le_bytes(nonce);
    r.extend_from_slice(nonce_bytes.as_slice());
    r.extend_from_slice(payload.as_slice());
    r
}

/// The keyed digest standing in for a signature of `msg` under `key`.
pub fn keyed_digest(key: &Vec<u8>, msg: &Vec<u8>) -> (r: Vec<u8>)
    ensures
        r@ == spec_keyed_digest(key@, msg@),
{
    let mut buf: Vec<u8> = Vec::new();
    buf.extend_from_slice(key.as_slice());
    buf.extend_from_slice(msg.as_slice());
    proof {
        assert(buf@ =~= key@ + msg@);
    }
    sha256(buf.as_slice())
}

/// Builds a transaction over `payload` from `sender`, with its id and
/// signature derived from the content, so the result is well signed.
pub fn make_transaction(sender: u64, nonce: u64, payload: Vec<u8>) -> (t: Transaction)
    ensures
        t.sender == sender,
        t.nonce == nonce,
        t.payload@ == payload@,
        tx_well_signed(t),
{
    let msg = tx_message(sender, nonce, &payload);
    let id = sha256(msg.as_slice());
    let key = account_key(sender);
    let signature = keyed_digest(&key, &msg);
    Transaction { id, sender, payload, nonce, signature }
}

/// The encoding of a block's seal within the block message.
pub fn proof_bytes(seal: &BlockProof) -> (r: Vec<u8>)
    ensures
        r@ == spec_proof_bytes(*seal),
{
    match seal {
        BlockProof::Work { nonce } => {
            let mut r: Vec<u8> = Vec::new();
            r.push(0u8);
            let nonce_bytes = u64_to_le_bytes(*nonce);
            r.extend_from_slice(nonce_bytes.as_slice());
            proof {
                assert(r@ =~= spec_proof_bytes(*seal));
            }
            r
        },
        BlockProof::Stake { signature } => {
            let mut r: Vec<u8> = Vec::new();
            r.push(1u8);
            r.extend_from_slice(signature.as_slice());
            proof {
                assert(r@ =~= spec_proof_bytes(*seal));
            }
            r
        },
    }
}

/// The message a block's hash is computed over, from its parts.
pub fn block_message(
    height: u64,
    parent_hash: &Vec<u8>,
    timestamp: u64,
    proposer_id: u64,
    seal: &BlockProof,
    transactions: &Vec<Transaction>,
) -> (r: Vec<u8>)
    ensures
        r@ == spec_u64_to_le_bytes(height) + parent_hash@ + spec_u64_to_le_bytes(timestamp)
            + spec_u64_to_le_bytes(proposer_id) + spec_proof_bytes(*seal)
            + spec_tx_ids_bytes(transactions@),
{
    let mut r = u64_to_le_bytes(height);
    r.extend_from_slice(parent_hash.as_slice());
    let ts_bytes = u64_to_le_bytes(timestamp);
    r.extend_from_slice(ts_bytes.as_slice());
    let proposer_bytes = u64_to_le_bytes(proposer_id);
    r.extend_from_slice(proposer_bytes.as_slice());
    let seal_bytes = proof_bytes(seal);
    r.extend_from_slice(seal_bytes.as_slice());
    let ghost prefix = r@;
    for i in 0..transactions.len()
        invariant
            r@ == prefix + spec_tx_ids_bytes(transactions@.take(i as int)),
    {
        r.extend_from_slice(transactions[i].id.as_slice());
        proof {
            assert(transactions@.take(i + 1).drop_last() =~= transactions@.take(i as int));
            assert(transactions@.take(i + 1).last() == transactions@[i as int]);
        }
    }
    proof {
        assert(transactions@.take(transactions@.len() as int) =~= transactions@);
    }
    r
}

/// The hash a block with the given content must carry.
pub fn compute_block_hash(
    height: u64,
    parent_hash: &Vec<u8>,
    timestamp: u64,
    proposer_id: u64,
    seal: &BlockProof,
    transactions: &Vec<Transaction>,
) -> (r: Vec<u8>)
    ensures
        r@ == sha256_of(
            spec_u64_to_le_bytes(height) + parent_hash@ + spec_u64_to_le_bytes(timestamp)
                + spec_u64_to_le_bytes(proposer_id) + spec_proof_bytes(*seal)
                + spec_tx_ids_bytes(transactions@),
        ),
        r@.len() == 32,
{
    let msg = block_message(height, parent_hash, timestamp, proposer_id, seal, transactions);
    sha256(msg.as_slice())
}

/// Builds a block from its parts, deriving the hash from the content, so
/// the result is content-addressed.
pub fn make_block(
    height: u64,
    parent_hash: Vec<u8>,
    timestamp: u64,
    proposer_id: u64,
    seal: BlockProof,
    transactions: Vec<Transaction>,
) -> (b: Block)
    ensures
        b.height == height,
        b.parent_hash@ == parent_hash@,
        b.timestamp == timestamp,
        b.proposer_id == proposer_id,
        b.proof == seal,
        b.transactions@ == transactions@,
        block_hash_ok(b),
{
    let hash = compute_block_hash(
        height,
        &parent_hash,
        timestamp,
        proposer_id,
        &seal,
        &transactions,
    );
    Block { height, parent_hash, timestamp, transactions, proposer_id, proof: seal, hash }
}

/// Recomputes a block's hash and checks it against the stored field.
pub fn check_block_hash(b: &Block) -> (r: bool)
    ensures
        r == block_hash_ok(*b),
{
    let expected = compute_block_hash(
        b.height,
        &b.parent_hash,
        b.timestamp,
        b.proposer_id,
        &b.proof,
        &b.transactions,
    );
    crate::utils::bytes_eq(&expected, &b.hash)
}

} // verus!
