use pi_sentinel::block::check_block_hash;
use pi_sentinel::block::make_block;
use pi_sentinel::block::make_transaction;
use pi_sentinel::block::BlockProof;
use pi_sentinel::chain::ChainError;
use pi_sentinel::chain::ChainStore;

fn genesis_store() -> ChainStore {
    let genesis = make_block(0, Vec::new(), 1000, 0, BlockProof::Work { nonce: 0 }, Vec::new());
    ChainStore::new(genesis, vec![(7u64, 500u64), (8u64, 120u64)])
}

#[test]
fn chain_linkage_holds_after_appends() {
    let mut store = genesis_store();
    let mut parents = vec![store.head().clone()];
    for height in 1u64..4 {
        let parent_hash = store.head().hash.clone();
        let b = make_block(
            height,
            parent_hash,
            1000 + height,
            1,
            BlockProof::Work { nonce: height },
            Vec::new(),
        );
        assert!(store.append(b.clone()).is_ok());
        parents.push(b);
    }
    // Every committed block carries its content digest, and each block's
    // parent hash is its predecessor's hash.
    for i in 1..parents.len() {
        assert!(check_block_hash(&parents[i]));
        assert_eq!(parents[i].parent_hash, parents[i - 1].hash);
    }
    assert_eq!(store.head().height, 3);
}

#[test]
fn append_duplicate_committed_block_is_noop() {
    let mut store = genesis_store();
    let b = make_block(
        1,
        store.head().hash.clone(),
        1001,
        1,
        BlockProof::Work { nonce: 5 },
        Vec::new(),
    );
    assert!(store.append(b.clone()).is_ok());
    let head_hash = store.head().hash.clone();
    // Submitting the very same block again succeeds and changes nothing.
    assert!(store.append(b).is_ok());
    assert_eq!(store.head().height, 1);
    assert_eq!(store.head().hash, head_hash);
}

#[test]
fn append_different_block_at_taken_height_is_duplicate_height() {
    let mut store = genesis_store();
    let parent_hash = store.head().hash.clone();
    let b1 = make_block(1, parent_hash.clone(), 1001, 1, BlockProof::Work { nonce: 5 }, Vec::new());
    let b2 = make_block(1, parent_hash, 1002, 2, BlockProof::Work { nonce: 6 }, Vec::new());
    assert!(store.append(b1).is_ok());
    // Only one of two same-height candidates ever commits.
    assert_eq!(store.append(b2), Err(ChainError::DuplicateHeight));
    assert_eq!(store.head().height, 1);
}

#[test]
fn append_stale_or_unlinked_block_is_parent_mismatch() {
    let mut store = genesis_store();
    // Wrong parent hash.
    let stray = make_block(1, vec![9u8; 32], 1001, 1, BlockProof::Work { nonce: 1 }, Vec::new());
    assert_eq!(store.append(stray), Err(ChainError::ParentMismatch));
    // Height far beyond the head.
    let distant = make_block(
        5,
        store.head().hash.clone(),
        1001,
        1,
        BlockProof::Work { nonce: 1 },
        Vec::new(),
    );
    assert_eq!(store.append(distant), Err(ChainError::ParentMismatch));
    // Tampered hash field.
    let mut forged = make_block(
        1,
        store.head().hash.clone(),
        1001,
        1,
        BlockProof::Work { nonce: 1 },
        Vec::new(),
    );
    forged.hash[0] = forged.hash[0].wrapping_add(1);
    assert_eq!(store.append(forged), Err(ChainError::ParentMismatch));
    assert_eq!(store.head().height, 0);
}

#[test]
fn get_block_finds_committed_blocks_by_hash() {
    let mut store = genesis_store();
    let b = make_block(
        1,
        store.head().hash.clone(),
        1001,
        1,
        BlockProof::Work { nonce: 5 },
        Vec::new(),
    );
    let wanted = b.hash.clone();
    assert!(store.append(b).is_ok());
    let hit = store.get_block(&wanted).expect("committed block must be found");
    assert_eq!(hit.height, 1);
    assert!(store.get_block(&vec![0u8; 32]).is_none());
}

#[test]
fn balances_come_from_allocation_and_nonces_from_commits() {
    let mut store = genesis_store();
    let (balance, nonce) = store.get_balance_and_nonce(7);
    assert_eq!((balance, nonce), (500, 0));
    let tx = make_transaction(7, 3, vec![1, 2, 3]);
    let b = make_block(
        1,
        store.head().hash.clone(),
        1001,
        1,
        BlockProof::Work { nonce: 5 },
        vec![tx],
    );
    assert!(store.append(b).is_ok());
    let (balance7, nonce7) = store.get_balance_and_nonce(7);
    assert_eq!((balance7, nonce7), (500, 3));
    let (balance9, nonce9) = store.get_balance_and_nonce(9);
    assert_eq!((balance9, nonce9), (0, 0));
}
