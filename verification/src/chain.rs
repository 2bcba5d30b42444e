//! The chain store: the append-only ledger of finalized blocks, plus the
//! initial account allocation the balances are read from.
//!
//! The committed chain is immutable once appended: no update or delete
//! operation exists, and `append` either extends the head by exactly one
//! block or leaves the store untouched.

use vstd::prelude::*;

use crate::block::Block;
use crate::block::block_hash_ok;
use crate::block::check_block_hash;
use crate::block::spec_block_hash;
use crate::block::Transaction;
use crate::utils::bytes_eq;

verus! {

/// A storage-layer conflict: the submitted block does not extend the head.
#[derive(Clone, Copy, Debug, PartialEq, Eq)]
pub enum ChainError {
    /// The block is not a content-addressed child of the current head.
    ParentMismatch,
    /// A different block already occupies the submitted height.
    DuplicateHeight,
}

// ---------------------------------------------------------------------------
// Chain well-formedness
// ---------------------------------------------------------------------------

/// A finalized chain: heights count up from 0, every block's parent hash is
/// the stored hash of the block below it, and every stored hash is the
/// digest of the block's own content.
pub open spec fn chain_wf(chain: Seq<Block>) -> bool {
    &&& chain.len() >= 1
    &&& forall|i: int| 0 <= i < chain.len() ==> #[trigger] chain[i].height == i
    &&& forall|i: int| 0 < i < chain.len() ==> #[trigger] chain[i].parent_hash@ == chain[
        i - 1
    ].hash@
    &&& forall|i: int| 0 <= i < chain.len() ==> block_hash_ok(#[trigger] chain[i])
}

/// Chain linkage: every block's parent hash is the recomputed digest of the
/// block below it. In every well-formed chain this holds of all blocks; see
/// [`lemma_chain_linkage`].
pub open spec fn chain_linked(chain: Seq<Block>) -> bool {
    forall|i: int| 0 < i < chain.len() ==> #[trigger] chain[i].parent_hash@ == spec_block_hash(
        chain[i - 1],
    )
}

/// Chain linkage invariant: in a well-formed (finalized) chain, every block
/// above the first carries the digest of its predecessor as its parent
/// hash.
pub proof fn lemma_chain_linkage(chain: Seq<Block>)
    requires
        chain_wf(chain),
    ensures
        chain_linked(chain),
{
}

/// One block per height: a well-formed chain cannot hold two distinct
/// blocks at the same height, so at most one of two same-height candidates
/// ever commits.
pub proof fn lemma_one_block_per_height(chain: Seq<Block>)
    requires
        chain_wf(chain),
    ensures
        forall|i: int, j: int|
            0 <= i < chain.len() && 0 <= j < chain.len() && i != j ==> (#[trigger] chain[i]).height
                != (#[trigger] chain[j]).height,
{
}

// ---------------------------------------------------------------------------
// Nonces and balances
// ---------------------------------------------------------------------------

/// The greatest nonce `account` has used within `txs`, or 0 if it has not.
pub open spec fn txs_max_nonce(txs: Seq<Transaction>, account: u64) -> u64
    decreases txs.len(),
{
    if txs.len() == 0 {
        0u64
    } else {
        let rest = txs_max_nonce(txs.drop_last(), account);
        if txs.last().sender == account && txs.last().nonce > rest {
            txs.last().nonce
        } else {
            rest
        }
    }
}

/// The greatest nonce `account` has committed anywhere in `chain`, or 0 if
/// it has committed none: the bound every new transaction must exceed.
pub open spec fn last_committed_nonce(chain: Seq<Block>, account: u64) -> u64
    decreases chain.len(),
{
    if chain.len() == 0 {
        0u64
    } else {
        let rest = last_committed_nonce(chain.drop_last(), account);
        let here = txs_max_nonce(chain.last().transactions@, account);
        if here > rest {
            here
        } else {
            rest
        }
    }
}

/// The balance granted to `account` at genesis, or 0: the first matching
/// entry of the allocation wins, though a well-formed allocation has no
/// duplicate keys.
pub open spec fn spec_balance_of(alloc: Seq<(u64, u64)>, account: u64) -> u64
    decreases alloc.len(),
{
    if alloc.len() == 0 {
        0u64
    } else if alloc.first().0 == account {
        alloc.first().1
    } else {
        spec_balance_of(alloc.drop_first(), account)
    }
}

// ---------------------------------------------------------------------------
// The store
// ---------------------------------------------------------------------------

/// The append-only ledger of finalized blocks. The genesis block is held
/// apart from the rest so that the store is never without a head.
pub struct ChainStore {
    genesis: Block,
    rest: Vec<Block>,
    alloc: Vec<(u64, u64)>,
}

impl ChainStore {
    /// The committed chain, genesis first.
    pub closed spec fn blocks(self) -> Seq<Block> {
        seq![self.genesis] + self.rest@
    }

    /// The initial account allocation: pairs of account and balance.
    pub closed spec fn allocation(self) -> Seq<(u64, u64)> {
        self.alloc@
    }

    #[verifier::type_invariant]
    spec fn inv(self) -> bool {
        &&& chain_wf(self.blocks())
        &&& forall|i: int, j: int|
            0 <= i < j < self.alloc@.len() ==> (#[trigger] self.alloc@[i]).0 != (
            #[trigger] self.alloc@[j]).0
    }

    /// Opens a store over a freshly built genesis block: the
    /// requires-free way in, for callers that hold only the genesis
    /// parameters. Allocation keys must be unique.
    pub fn open(timestamp: u64, alloc: Vec<(u64, u64)>) -> (store: ChainStore)
        requires
            forall|i: int, j: int|
                0 <= i < j < alloc@.len() ==> (#[trigger] alloc@[i]).0 != (#[trigger] alloc@[j]).0,
        ensures
            store.blocks().len() == 1,
            store.blocks()[0].height == 0,
            store.blocks()[0].timestamp == timestamp,
            store.blocks()[0].transactions@ == Seq::<Transaction>::empty(),
            block_hash_ok(store.blocks()[0]),
            store.allocation() == alloc@,
    {
        let genesis = crate::block::make_block(
            0,
            Vec::new(),
            timestamp,
            0,
            crate::block::BlockProof::Work { nonce: 0 },
            Vec::new(),
        );
        proof {
            assert(genesis.transactions@ =~= Seq::<Transaction>::empty());
        }
        ChainStore::new(genesis, alloc)
    }

    /// Opens a store over the given genesis block and allocation. The
    /// genesis block must carry height 0 and its own content digest, as
    /// [`crate::block::make_block`] builds it; allocation keys are unique.
    pub fn new(genesis: Block, alloc: Vec<(u64, u64)>) -> (store: ChainStore)
        requires
            genesis.height == 0,
            block_hash_ok(genesis),
            forall|i: int, j: int|
                0 <= i < j < alloc@.len() ==> (#[trigger] alloc@[i]).0 != (#[trigger] alloc@[j]).0,
        ensures
            store.blocks() == seq![genesis],
            store.allocation() == alloc@,
    {
        let store = ChainStore { genesis, rest: Vec::new(), alloc };
        proof {
            assert(store.blocks() =~= seq![store.genesis]);
        }
        store
    }

    /// The current head: the highest committed block.
    pub fn head(&self) -> (r: &Block)
        ensures
            *r == self.blocks().last(),
            self.blocks().len() >= 1,
            r.height == self.blocks().len() - 1,
    {
        proof {
            use_type_invariant(self);
            assert(self.blocks()[self.blocks().len() - 1].height == self.blocks().len() - 1);
        }
        if self.rest.len() == 0 {
            proof {
                assert(self.blocks().last() == self.genesis);
            }
            &self.genesis
        } else {
            proof {
                assert(self.blocks().last() == self.rest@[self.rest@.len() - 1]);
            }
            &self.rest[self.rest.len() - 1]
        }
    }

    /// The committed block at `height`, if any.
    fn block_at(&self, height: usize) -> (r: &Block)
        requires
            height < self.blocks().len(),
        ensures
            *r == self.blocks()[height as int],
    {
        proof {
            use_type_invariant(self);
        }
        if height == 0 {
            &self.genesis
        } else {
            &self.rest[height - 1]
        }
    }

    /// Whether `block` is already committed: the block stored at its height
    /// carries the same hash.
    pub open spec fn spec_already_committed(chain: Seq<Block>, block: Block) -> bool {
        block.height < chain.len() && chain[block.height as int].hash@ == block.hash@
    }

    /// Whether `block` is a valid next head for `chain`: it sits one above
    /// the head, names the head's hash as its parent, and carries its own
    /// content digest.
    pub open spec fn spec_extends_head(chain: Seq<Block>, block: Block) -> bool {
        &&& block.height == chain.len()
        &&& block.parent_hash@ == chain.last().hash@
        &&& block_hash_ok(block)
    }

    /// Commits `block` as the new head. Succeeds exactly when the block
    /// extends the head, or is already committed (a duplicate submission is
    /// a no-op, not an error). On any failure the store is untouched: an
    /// append is atomic.
    #[verifier::rlimit(50)]
    pub fn append(&mut self, block: Block) -> (r: Result<(), ChainError>)
        ensures
            chain_wf(final(self).blocks()),
            chain_linked(final(self).blocks()),
            final(self).allocation() == old(self).allocation(),
            ChainStore::spec_already_committed(old(self).blocks(), block)
                ==> r is Ok && final(self).blocks() == old(self).blocks(),
            !ChainStore::spec_already_committed(old(self).blocks(), block)
                && block.height < old(self).blocks().len()
                ==> r == Err::<(), ChainError>(ChainError::DuplicateHeight)
                && final(self).blocks() == old(self).blocks(),
            block.height >= old(self).blocks().len()
                && !ChainStore::spec_extends_head(old(self).blocks(), block)
                ==> r == Err::<(), ChainError>(ChainError::ParentMismatch)
                && final(self).blocks() == old(self).blocks(),
            ChainStore::spec_extends_head(old(self).blocks(), block)
                ==> r is Ok && final(self).blocks() == old(self).blocks().push(block),
    {
        proof {
            use_type_invariant(&*self);
        }
        let ghost chain0 = self.blocks();
        let head_height = self.head().height;
        let rest_len = self.rest.len();
        proof {
            assert(chain0[chain0.len() - 1].height == chain0.len() - 1);
            assert(chain0.len() == 1 + rest_len);
        }
        if block.height <= head_height {
            proof {
                assert(block.height < chain0.len());
                assert(block.height <= rest_len <= usize::MAX);
            }
            let stored = self.block_at(block.height as usize);
            if bytes_eq(&stored.hash, &block.hash) {
                proof {
                    assert(ChainStore::spec_already_committed(chain0, block));
                    lemma_chain_linkage(self.blocks());
                }
                return Ok(());
            } else {
                proof {
                    assert(!ChainStore::spec_already_committed(chain0, block));
                    lemma_chain_linkage(self.blocks());
                }
                return Err(ChainError::DuplicateHeight);
            }
        }
        proof {
            assert(block.height >= chain0.len());
            assert(!ChainStore::spec_already_committed(chain0, block));
            lemma_chain_linkage(self.blocks());
        }
        if block.height - 1 != head_height {
            proof {
                assert(!ChainStore::spec_extends_head(chain0, block));
            }
            return Err(ChainError::ParentMismatch);
        }
        let linked = bytes_eq(&block.parent_hash, &self.head().hash);
        let sealed = check_block_hash(&block);
        if !linked || !sealed {
            proof {
                assert(!ChainStore::spec_extends_head(chain0, block));
            }
            return Err(ChainError::ParentMismatch);
        }
        proof {
            assert(ChainStore::spec_extends_head(chain0, block));
        }
        proof {
            assert(chain0[0] == self.genesis);
            assert(self.genesis.height == 0);
            assert(block_hash_ok(self.genesis));
            assert(seq![self.genesis] + Seq::<Block>::empty() =~= seq![self.genesis]);
            assert(chain_wf(seq![self.genesis]));
        }
        let mut rest: Vec<Block> = Vec::new();
        core::mem::swap(&mut rest, &mut self.rest);
        rest.push(block);
        proof {
            assert(seq![self.genesis] + rest@ =~= chain0.push(block));
            assert(chain_wf(chain0.push(block)));
        }
        self.rest = rest;
        proof {
            assert(self.blocks() == chain0.push(block));
            lemma_chain_linkage(self.blocks());
        }
        Ok(())
    }

    /// The committed block carrying `hash`, if one exists.
    pub fn get_block(&self, hash: &Vec<u8>) -> (r: Option<&Block>)
        ensures
            match r {
                Some(b) => exists|i: int|
                    0 <= i < self.blocks().len() && *b == self.blocks()[i] && b.hash@ == hash@,
                None => forall|i: int|
                    0 <= i < self.blocks().len() ==> (#[trigger] self.blocks()[i]).hash@ != hash@,
            },
    {
        proof {
            use_type_invariant(self);
        }
        if bytes_eq(&self.genesis.hash, hash) {
            proof {
                assert(self.blocks()[0] == self.genesis);
            }
            return Some(&self.genesis);
        }
        for j in 0..self.rest.len()
            invariant
                forall|i: int| 0 <= i < 1 + j ==> (#[trigger] self.blocks()[i]).hash@ != hash@,
                self.blocks() == seq![self.genesis] + self.rest@,
        {
            if bytes_eq(&self.rest[j].hash, hash) {
                proof {
                    assert(self.blocks()[1 + j as int] == self.rest@[j as int]);
                }
                return Some(&self.rest[j]);
            }
            proof {
                assert(self.blocks()[1 + j as int] == self.rest@[j as int]);
            }
        }
        None
    }

    /// The balance allocated to `account` and the last nonce it committed.
    /// The balance is read from the genesis allocation; transfers are
    /// executed outside this core.
    pub fn get_balance_and_nonce(&self, account: u64) -> (r: (u64, u64))
        ensures
            r.0 == spec_balance_of(self.allocation(), account),
            r.1 == last_committed_nonce(self.blocks(), account),
    {
        proof {
            use_type_invariant(self);
        }
        let balance = self.balance_of(account);
        let nonce = self.last_nonce(account);
        (balance, nonce)
    }

    /// The balance allocated to `account` at genesis, or 0.
    fn balance_of(&self, account: u64) -> (r: u64)
        ensures
            r == spec_balance_of(self.allocation(), account),
    {
        proof {
            assert(self.alloc@.skip(0) =~= self.alloc@);
        }
        for i in 0..self.alloc.len()
            invariant
                spec_balance_of(self.alloc@, account) == spec_balance_of(
                    self.alloc@.skip(i as int),
                    account,
                ),
        {
            proof {
                assert(self.alloc@.skip(i as int).first() == self.alloc@[i as int]);
                assert(self.alloc@.skip(i as int).drop_first() =~= self.alloc@.skip(i + 1));
            }
            if self.alloc[i].0 == account {
                return self.alloc[i].1;
            }
        }
        0
    }

    /// The last nonce `account` committed anywhere in the chain, or 0.
    pub fn last_nonce(&self, account: u64) -> (r: u64)
        ensures
            r == last_committed_nonce(self.blocks(), account),
    {
        proof {
            use_type_invariant(self);
        }
        let mut m = txs_max_nonce_exec(&self.genesis.transactions, account);
        proof {
            assert(self.blocks().take(1).drop_last() =~= Seq::<Block>::empty());
            assert(self.blocks().take(1).last() == self.genesis);
            assert(last_committed_nonce(Seq::<Block>::empty(), account) == 0);
            assert(m == last_committed_nonce(self.blocks().take(1), account));
        }
        for j in 0..self.rest.len()
            invariant
                m == last_committed_nonce(self.blocks().take(1 + j), account),
                self.blocks() == seq![self.genesis] + self.rest@,
        {
            let here = txs_max_nonce_exec(&self.rest[j].transactions, account);
            if here > m {
                m = here;
            }
            proof {
                assert(self.blocks().take(1 + j + 1).drop_last() =~= self.blocks().take(1 + j));
                assert(self.blocks().take(1 + j + 1).last() == self.rest@[j as int]);
            }
        }
        proof {
            assert(self.blocks().take(1 + self.rest@.len() as int) =~= self.blocks());
        }
        m
    }
}

/// The greatest nonce `account` has used within `txs`, or 0.
pub fn txs_max_nonce_exec(txs: &Vec<Transaction>, account: u64) -> (r: u64)
    ensures
        r == txs_max_nonce(txs@, account),
{
    let mut m: u64 = 0;
    for i in 0..txs.len()
        invariant
            m == txs_max_nonce(txs@.take(i as int), account),
    {
        if txs[i].sender == account && txs[i].nonce > m {
            m = txs[i].nonce;
        }
        proof {
            assert(txs@.take(i + 1).drop_last() =~= txs@.take(i as int));
            assert(txs@.take(i + 1).last() == txs@[i as int]);
        }
    }
    proof {
        assert(txs@.take(txs@.len() as int) =~= txs@);
    }
    m
}

} // verus!
