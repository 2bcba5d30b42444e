use pi_sentinel::block::make_block;
use pi_sentinel::block::BlockProof;
use pi_sentinel::chain::ChainStore;
use pi_sentinel::consensus::PoSConsensus;
use pi_sentinel::consensus::PoWConsensus;
use pi_sentinel::validator::eligible_proposer;
use pi_sentinel::validator::pow_value;
use pi_sentinel::validator_set::ValidatorInfo;
use pi_sentinel::validator_set::ValidatorSet;

fn genesis_store() -> ChainStore {
    let genesis = make_block(0, Vec::new(), 1000, 0, BlockProof::Work { nonce: 0 }, Vec::new());
    ChainStore::new(genesis, Vec::new())
}

#[test]
fn open_target_mines_a_linked_candidate() {
    let store = genesis_store();
    let mut miner = PoWConsensus::new(u64::MAX, 1);
    let b = miner.propose(&store, Vec::new(), 1001, 16).expect("an open target must mine");
    assert_eq!(b.height, 1);
    assert_eq!(b.parent_hash, store.head().hash);
    assert_eq!(b.proposer_id, 1);
    assert!(pow_value(&b) < u64::MAX);
    assert!(matches!(b.proof, BlockProof::Work { .. }));
}

#[test]
fn impossible_target_exhausts_its_slice() {
    let store = genesis_store();
    let mut miner = PoWConsensus::new(0, 1);
    // No hash value falls below 0: the slice must come back empty, with
    // the search positioned to resume.
    assert!(miner.propose(&store, Vec::new(), 1001, 8).is_none());
    assert_eq!(miner.next_nonce, 8);
    assert!(miner.propose(&store, Vec::new(), 1001, 8).is_none());
    assert_eq!(miner.next_nonce, 16);
}

#[test]
fn new_head_restarts_the_search() {
    let store = genesis_store();
    let mut miner = PoWConsensus::new(0, 1);
    assert!(miner.propose(&store, Vec::new(), 1001, 8).is_none());
    assert_eq!(miner.next_nonce, 8);
    miner.on_new_head();
    assert_eq!(miner.next_nonce, 0);
}

#[test]
fn only_the_chosen_staker_proposes() {
    let store = genesis_store();
    let vals = ValidatorSet::new(vec![
        ValidatorInfo { id: 1, stake: 10 },
        ValidatorInfo { id: 2, stake: 20 },
        ValidatorInfo { id: 3, stake: 30 },
    ]);
    let chosen = eligible_proposer(&store.head().hash, 1, &vals);
    assert!(chosen == 1 || chosen == 2 || chosen == 3);
    let lucky = PoSConsensus::new(chosen);
    let b = lucky.propose(&store, &vals, Vec::new(), 1001).expect("the chosen node proposes");
    assert_eq!(b.proposer_id, chosen);
    assert_eq!(b.height, 1);
    assert!(matches!(b.proof, BlockProof::Stake { .. }));
    // Every other validator yields nothing this round.
    for id in 1..=3u64 {
        if id != chosen {
            let unlucky = PoSConsensus::new(id);
            assert!(unlucky.propose(&store, &vals, Vec::new(), 1001).is_none());
        }
    }
}

#[test]
fn stakeless_set_selects_nobody() {
    let store = genesis_store();
    let vals = ValidatorSet::new(vec![ValidatorInfo { id: 1, stake: 0 }]);
    let strategy = PoSConsensus::new(1);
    assert!(strategy.propose(&store, &vals, Vec::new(), 1001).is_none());
}

#[test]
fn selection_is_deterministic_in_head_and_round() {
    let store = genesis_store();
    let vals = ValidatorSet::new(vec![
        ValidatorInfo { id: 1, stake: 10 },
        ValidatorInfo { id: 2, stake: 20 },
    ]);
    let first = eligible_proposer(&store.head().hash, 1, &vals);
    let again = eligible_proposer(&store.head().hash, 1, &vals);
    assert_eq!(first, again);
}
