use tari_dan_core::block::{Block, QuorumCertificate};
use tari_dan_core::dummy::calculate_dummy_blocks;
use tari_dan_core::leader::RoundRobinLeaderStrategy;
use tari_dan_core::dummy::calculate_last_dummy_block;
use tari_dan_core::pacemaker::{on_leader_timeout, on_receive_proposal, ProposalError};
use tari_dan_core::state_tree::{StateTreeError, SubstateTreeChange, TreeStore};
use tari_dan_core::store::BlockStore;

fn committee() -> Vec<Vec<u8>> {
    vec![vec![1; 32], vec![2; 32], vec![3; 32]]
}

fn proposal(parent_id: &[u8], justify: &Block, height: u64, epoch: u64, root: Vec<u8>) -> Block {
    Block::new(
        1,
        parent_id.to_vec(),
        QuorumCertificate { block_id: justify.id.clone(), block_height: justify.height, epoch, shard: 0 },
        height,
        epoch,
        0,
        vec![1; 32],
        root,
        height * 10,
        0,
        vec![0; 32],
        vec![],
    )
}

fn accept(store: &mut BlockStore, block: Block) -> Result<Option<Vec<u8>>, ProposalError> {
    let s = RoundRobinLeaderStrategy::new();
    on_receive_proposal(store, 1, &s, &committee(), &TreeStore::new(), 0, 1, vec![], vec![], block)
        .map(|o| o.committed)
}

fn empty_root() -> Vec<u8> {
    vec![0; 32]
}

#[test]
fn commit_rule_through_proposals() {
    let genesis = Block::genesis(1, 1, 0);
    let g = genesis.clone();
    let mut store = BlockStore::new(genesis);
    let b1 = proposal(&g.id, &g, 1, 1, empty_root());
    let b2 = proposal(&b1.id, &b1, 2, 1, empty_root());
    let b3 = proposal(&b2.id, &b2, 3, 1, empty_root());
    let b4 = proposal(&b3.id, &b3, 4, 1, empty_root());
    assert_eq!(accept(&mut store, b1.clone()).unwrap(), None);
    assert_eq!(accept(&mut store, b2.clone()).unwrap(), None);
    // b3 certifies b2, whose certificate names b1, whose certificate names genesis.
    assert_eq!(accept(&mut store, b3.clone()).unwrap(), Some(g.id.clone()));
    assert!(!store.get(&b1.id).unwrap().is_committed);
    // Observing the certificate on b3 commits b1.
    assert_eq!(accept(&mut store, b4.clone()).unwrap(), Some(b1.id.clone()));
    assert!(store.get(&b1.id).unwrap().is_committed);
    assert_eq!(store.leaf_block.block_id, b4.id);
    assert_eq!(store.leaf_block.height, 4);
    let vote = store.last_sent_vote.as_ref().unwrap();
    assert_eq!(vote.block_id, b4.id);
    assert!(vote.decision);
}

#[test]
fn leader_failure_gap_is_filled_with_dummies() {
    let genesis = Block::genesis(1, 1, 0);
    let g = genesis.clone();
    let mut store = BlockStore::new(genesis);
    let b1 = proposal(&g.id, &g, 1, 1, empty_root());
    accept(&mut store, b1.clone()).unwrap();
    let s = RoundRobinLeaderStrategy::new();
    let probe = proposal(&[0xEE; 32], &b1, 4, 1, empty_root());
    let dummies = calculate_dummy_blocks(&probe, &b1, &s, &committee());
    // Proposal at 4 whose parent is the dummy at 3.
    let b4 = proposal(&dummies[1].id, &b1, 4, 1, empty_root());
    accept(&mut store, b4.clone()).unwrap();
    assert!(store.get(&dummies[0].id).unwrap().is_dummy);
    assert!(store.get(&dummies[1].id).is_some());
    assert_eq!(store.leaf_block.height, 4);
    // A parent that no dummy chain reaches is refused.
    let stray = proposal(&[0x99; 32], &b4, 7, 1, empty_root());
    assert_eq!(accept(&mut store, stray).unwrap_err(), ProposalError::ParentChainNotClosed);
}

#[test]
fn proposals_that_are_dropped() {
    let genesis = Block::genesis(1, 1, 0);
    let g = genesis.clone();
    let mut store = BlockStore::new(genesis);
    let before = store.len();
    assert_eq!(accept(&mut store, proposal(&g.id, &g, 1, 2, empty_root())).unwrap_err(), ProposalError::WrongEpoch);
    assert_eq!(accept(&mut store, proposal(&g.id, &g, 0, 1, empty_root())).unwrap_err(), ProposalError::InvalidHeight);
    let unknown = Block::new(1, vec![5; 32], QuorumCertificate { block_id: vec![5; 32], block_height: 0, epoch: 1, shard: 0 }, 1, 1, 0, vec![], empty_root(), 0, 0, vec![], vec![]);
    assert_eq!(accept(&mut store, unknown).unwrap_err(), ProposalError::UnknownJustify);
    assert_eq!(accept(&mut store, proposal(&g.id, &g, 1, 1, vec![7; 32])).unwrap_err(), ProposalError::StateRootMismatch);
    assert_eq!(accept(&mut store, g.clone()).unwrap_err(), ProposalError::InvalidHeight);
    assert_eq!(store.len(), before);
    assert!(store.last_sent_vote.is_none());

    let b1 = proposal(&g.id, &g, 1, 1, empty_root());
    accept(&mut store, b1.clone()).unwrap();
    assert_eq!(accept(&mut store, b1.clone()).unwrap_err(), ProposalError::DuplicateBlock);

    let s = RoundRobinLeaderStrategy::new();
    let b2 = proposal(&b1.id, &b1, 2, 1, empty_root());
    let r = on_receive_proposal(&mut store, 1, &s, &committee(), &TreeStore::new(), 0, 1, vec![], vec![SubstateTreeChange::Down { id: 3 }], b2);
    assert_eq!(r.unwrap_err(), ProposalError::StateTree(StateTreeError::MissingNode));
}

#[test]
fn accepted_proposal_carries_its_tree_diff() {
    let genesis = Block::genesis(1, 1, 0);
    let g = genesis.clone();
    let mut store = BlockStore::new(genesis);
    let tree = TreeStore::new();
    let changes = vec![SubstateTreeChange::Up { id: 1, value_hash: vec![0xAA; 32] }];
    let mut staged = tari_dan_core::state_tree::StagedTreeStore::new(&tree);
    let root = staged.put_substate_changes(None, 1, &changes).unwrap();
    let b1 = proposal(&g.id, &g, 1, 1, root);
    let s = RoundRobinLeaderStrategy::new();
    let o = on_receive_proposal(&mut store, 1, &s, &committee(), &tree, 0, 1, vec![], changes, b1.clone()).unwrap();
    assert_eq!(o.tree_diff.version, 1);
    assert_eq!(o.tree_diff.changes.len(), 1);
    assert_eq!(o.vote.block_id, b1.id);
    assert_eq!(o.vote.block_height, 1);
}

#[test]
fn view_timeout_advances_and_picks_parent() {
    let s = RoundRobinLeaderStrategy::new();
    let c = committee();
    let g = Block::genesis(1, 1, 0);
    let qc = QuorumCertificate { block_id: g.id.clone(), block_height: 0, epoch: 1, shard: 0 };
    // Height 1 is led by committee[1].
    let v = on_leader_timeout(&vec![2; 32], &c, &s, 0, &qc, &g);
    assert_eq!(v.new_height, 1);
    assert!(v.is_leader);
    assert_eq!(v.parent.unwrap().block_id, g.id);
    let v = on_leader_timeout(&vec![1; 32], &c, &s, 0, &qc, &g);
    assert!(!v.is_leader);
    assert!(v.parent.is_none());
    // Height 4 is led by committee[1]; heights 1 to 3 are filled with dummies.
    let v = on_leader_timeout(&vec![2; 32], &c, &s, 3, &qc, &g);
    assert_eq!(v.new_height, 4);
    let parent = v.parent.unwrap();
    assert_eq!(parent.height, 3);
    let expected = calculate_last_dummy_block(1, 1, 0, &qc, g.state_merkle_root.clone(), 3, &s, &c, g.timestamp, g.base_layer_block_height, g.base_layer_block_hash.clone()).unwrap();
    assert_eq!(parent.block_id, expected.block_id);
}
