use tari_dan_core::block::{Block, QuorumCertificate};
use tari_dan_core::consensus::TariConsensusSpec;
use tari_dan_core::dummy::{calculate_dummy_blocks, calculate_last_dummy_block};
use tari_dan_core::leader::RoundRobinLeaderStrategy;
use tari_dan_core::store::{BlockStore, LastProposed, LastSentVote};
use tari_dan_core::sync::{HotstuffMessage, OnSyncRequest, SyncRequestError, SyncRequestMessage};

fn committee() -> Vec<Vec<u8>> {
    vec![vec![0xA; 32], vec![0xB; 32], vec![0xC; 32], vec![0xD; 32]]
}

fn qc(block_id: &[u8], block_height: u64, epoch: u64) -> QuorumCertificate {
    QuorumCertificate { block_id: block_id.to_vec(), block_height, epoch, shard: 0 }
}

fn block_on(parent: &Block, height: u64, epoch: u64) -> Block {
    Block::new(
        1,
        parent.id.clone(),
        qc(&parent.id, parent.height, epoch),
        height,
        epoch,
        0,
        vec![0xA; 32],
        vec![0; 32],
        1000 + height,
        5,
        vec![0x55; 32],
        vec![height as u8],
    )
}

#[test]
fn leader_is_round_robin_member() {
    let c = committee();
    let s = RoundRobinLeaderStrategy::new();
    assert_eq!(s.get_leader_public_key(&c, 11), vec![0xD; 32]);
    assert_eq!(s.get_leader_public_key(&c, 12), vec![0xA; 32]);
    assert_eq!(s.get_leader_public_key(&c, 13), vec![0xB; 32]);
    for h in 0..20u64 {
        let l = s.get_leader_public_key(&c, h);
        assert!(c.contains(&l));
        assert_eq!(l, s.get_leader_public_key(&c, h));
    }
}

fn justify_block() -> Block {
    Block::new(1, vec![0; 32], qc(&[0; 32], 9, 3), 10, 3, 0, vec![0xC; 32], vec![0x77; 32], 500, 42, vec![0x42; 32], vec![])
}

#[test]
fn two_height_leader_failure_fills_with_dummies() {
    let j = justify_block();
    let x = j.id.clone();
    let s = RoundRobinLeaderStrategy::new();
    let c = committee();
    // A candidate at 13 whose parent is none of the dummies: dummies run to 13.
    let candidate = Block::new(1, vec![0xEE; 32], qc(&x, 10, 3), 13, 3, 0, vec![0xB; 32], vec![0x77; 32], 600, 42, vec![0x42; 32], vec![]);
    let d = calculate_dummy_blocks(&candidate, &j, &s, &c);
    assert_eq!(d.len(), 3);
    assert_eq!(d.iter().map(|b| b.height).collect::<Vec<_>>(), vec![11, 12, 13]);
    assert_eq!(d[0].proposer, s.get_leader_public_key(&c, 11));
    assert_eq!(d[1].proposer, s.get_leader_public_key(&c, 12));
    assert_eq!(d[2].proposer, s.get_leader_public_key(&c, 13));
    assert_eq!(d[0].parent_id, x);
    assert_eq!(d[1].parent_id, d[0].id);
    assert_eq!(d[2].parent_id, d[1].id);
    for b in &d {
        assert!(b.is_dummy);
        assert_eq!(b.state_merkle_root, vec![0x77; 32]);
        assert_eq!(b.base_layer_block_height, 42);
        assert_eq!(b.timestamp, 500);
        assert_eq!(b.justify.block_height, 10);
        assert!(b.commands.is_empty());
        assert_eq!(b.id.len(), 32);
    }
    assert_ne!(d[0].id, d[1].id);

    let leaf = calculate_last_dummy_block(1, 3, 0, &qc(&x, 10, 3), vec![0x77; 32], 13, &s, &c, 500, 42, vec![0x42; 32]).unwrap();
    assert_eq!(leaf.block_id, d[2].id);
    assert_eq!(leaf.height, 13);
    assert_eq!(leaf.epoch, 3);
}

#[test]
fn dummy_synthesis_stops_at_candidate_parent() {
    let j = justify_block();
    let s = RoundRobinLeaderStrategy::new();
    let c = committee();
    let probe = Block::new(1, vec![0xEE; 32], qc(&j.id, 10, 3), 13, 3, 0, vec![], vec![0x77; 32], 600, 42, vec![0x42; 32], vec![]);
    let all = calculate_dummy_blocks(&probe, &j, &s, &c);
    let candidate = Block::new(1, all[1].id.clone(), qc(&j.id, 10, 3), 13, 3, 0, vec![], vec![0x77; 32], 600, 42, vec![0x42; 32], vec![]);
    let d = calculate_dummy_blocks(&candidate, &j, &s, &c);
    assert_eq!(d.len(), 2);
    assert_eq!(d[1].id, candidate.parent_id);
}

#[test]
fn no_dummies_when_certificate_reaches_new_height() {
    let s = RoundRobinLeaderStrategy::new();
    let c = committee();
    assert!(calculate_last_dummy_block(1, 3, 0, &qc(&[1; 32], 10, 3), vec![], 10, &s, &c, 0, 0, vec![]).is_none());
    assert!(calculate_last_dummy_block(1, 3, 0, &qc(&[1; 32], 10, 3), vec![], 4, &s, &c, 0, 0, vec![]).is_none());
    // No committee is needed where no dummy is.
    assert!(calculate_last_dummy_block(1, 3, 0, &qc(&[1; 32], 10, 3), vec![], 10, &s, &vec![], 0, 0, vec![]).is_none());
    let j = justify_block();
    let candidate = Block::new(1, vec![0xEE; 32], qc(&j.id, 10, 3), 10, 3, 0, vec![], vec![], 0, 0, vec![], vec![]);
    assert!(calculate_dummy_blocks(&candidate, &j, &s, &c).is_empty());
}

fn chain_store(epoch: u64, top: u64) -> (BlockStore, Vec<Vec<u8>>) {
    let genesis = Block::genesis(1, epoch, 0);
    let mut ids = vec![genesis.id.clone()];
    let mut prev = genesis.clone();
    let mut store = BlockStore::new(genesis);
    for h in 1..=top {
        let b = block_on(&prev, h, epoch);
        ids.push(b.id.clone());
        assert!(store.insert(b.clone()));
        prev = b;
    }
    store.leaf_block = prev.as_leaf_block();
    (store, ids)
}

#[test]
fn catch_up_sends_blocks_above_peer_certificate_then_last_vote() {
    let (mut store, ids) = chain_store(2, 50);
    store.add_foreign_proposal(ids[45].clone(), vec![1, 2, 3]);
    store.last_sent_vote = Some(LastSentVote {
        epoch: 2,
        block_id: ids[50].clone(),
        block_height: 50,
        decision: true,
        signature: vec![9; 64],
    });
    let handler = OnSyncRequest::new(store);
    let msgs = handler.handle(0, 2, &SyncRequestMessage { high_qc: qc(&ids[42], 42, 2) }).unwrap();
    assert_eq!(msgs.len(), 9);
    for (i, m) in msgs.iter().take(8).enumerate() {
        match m {
            HotstuffMessage::Proposal(p) => {
                assert_eq!(p.block.height, 43 + i as u64);
                assert_eq!(p.block.id, ids[43 + i]);
                if p.block.height == 45 {
                    assert_eq!(p.foreign_proposals, vec![vec![1, 2, 3]]);
                } else {
                    assert!(p.foreign_proposals.is_empty());
                }
            },
            HotstuffMessage::Vote(_) => panic!("vote before the blocks"),
        }
    }
    match &msgs[8] {
        HotstuffMessage::Vote(v) => assert_eq!(v.block_height, 50),
        HotstuffMessage::Proposal(_) => panic!("expected the last vote"),
    }
}

#[test]
fn catch_up_refusals() {
    let (store, ids) = chain_store(2, 10);
    let handler = OnSyncRequest::new(store);
    assert_eq!(
        handler.handle(0, 2, &SyncRequestMessage { high_qc: qc(&ids[3], 3, 1) }).unwrap_err(),
        SyncRequestError::EpochMismatch
    );
    assert_eq!(
        handler.handle(0, 2, &SyncRequestMessage { high_qc: qc(&[5; 32], 20, 2) }).unwrap_err(),
        SyncRequestError::PeerAhead
    );
    // Same height as the tip: nothing to send, and no vote was recorded.
    assert!(handler.handle(0, 2, &SyncRequestMessage { high_qc: qc(&ids[10], 10, 2) }).unwrap().is_empty());
}

#[test]
fn catch_up_at_height_zero_sends_no_blocks() {
    let genesis = Block::genesis(1, 2, 0);
    let mut store = BlockStore::new(genesis);
    store.last_sent_vote = Some(LastSentVote { epoch: 2, block_id: vec![1; 32], block_height: 0, decision: false, signature: vec![] });
    let handler = OnSyncRequest::new(store);
    let msgs = handler.handle(0, 2, &SyncRequestMessage { high_qc: qc(&[7; 32], 30, 2) }).unwrap();
    assert!(msgs.is_empty());
}

#[test]
fn catch_up_serves_from_last_proposed_when_higher() {
    let (mut store, ids) = chain_store(2, 12);
    store.leaf_block.height = 8;
    store.last_proposed = Some(LastProposed { block_id: ids[12].clone(), height: 12, epoch: 2 });
    let handler = OnSyncRequest::new(store);
    let msgs = handler.handle(0, 2, &SyncRequestMessage { high_qc: qc(&ids[9], 9, 2) }).unwrap();
    assert_eq!(msgs.len(), 3);
}

#[test]
fn blocks_between_single_height() {
    let (store, ids) = chain_store(4, 6);
    let inclusive = store.get_all_blocks_between(4, 0, 3, 3, true, 1000);
    assert_eq!(inclusive.len(), 1);
    assert_eq!(inclusive[0].id, ids[3]);
    assert!(store.get_all_blocks_between(4, 0, 3, 3, false, 1000).is_empty());
    let range = store.get_all_blocks_between(4, 0, 0, 6, true, 1000);
    assert_eq!(range.len(), 7);
    assert!(range[0].is_genesis());
    let open = store.get_all_blocks_between(4, 0, 1, 5, false, 1000);
    assert_eq!(open.iter().map(|b| b.height).collect::<Vec<_>>(), vec![2, 3, 4]);
    let capped = store.get_all_blocks_between(4, 0, 1, 6, true, 2);
    assert_eq!(capped.iter().map(|b| b.height).collect::<Vec<_>>(), vec![1, 2]);
    assert!(store.get_all_blocks_between(5, 0, 0, 6, true, 1000).is_empty());
}

#[test]
fn store_insert_keeps_height_order_and_refuses_duplicates() {
    let genesis = Block::genesis(1, 1, 0);
    let g = genesis.clone();
    let mut store = BlockStore::new(genesis);
    let b2 = block_on(&g, 2, 1);
    let b1 = block_on(&g, 1, 1);
    assert!(store.insert(b2.clone()));
    assert!(store.insert(b1.clone()));
    assert!(!store.insert(b1.clone()));
    assert_eq!(store.len(), 3);
    assert!(store.is_well_formed());
    store.blocks.swap(1, 2);
    assert!(!store.is_well_formed());
    store.blocks.swap(1, 2);
    store.blocks.push(b2.clone());
    assert!(!store.is_well_formed());
    store.blocks.pop();
    let all = store.get_all_blocks_between(1, 0, 0, 10, true, 10);
    assert_eq!(all.iter().map(|b| b.height).collect::<Vec<_>>(), vec![0, 1, 2]);
    assert_eq!(store.get(&b1.id).unwrap().height, 1);
    assert!(store.get(&vec![0xFF; 32]).is_none());
}

#[test]
fn three_chain_commits_grandparent() {
    let genesis = Block::genesis(1, 1, 0);
    let g = genesis.clone();
    let mut store = BlockStore::new(genesis);
    let h0 = block_on(&g, 5, 1);
    let h1 = block_on(&h0, 6, 1);
    let h2 = block_on(&h1, 7, 1);
    for b in [&h0, &h1, &h2] {
        assert!(store.insert((*b).clone()));
    }
    // A certificate on h+1 alone does not complete a three-chain above h.
    assert_eq!(store.commit_on_qc(&qc(&[0xAB; 32], 8, 1)), None);
    let committed = store.commit_on_qc(&qc(&h2.id, 7, 1)).unwrap();
    assert_eq!(committed, h0.id);
    assert!(store.get(&h0.id).unwrap().is_committed);
    assert!(!store.get(&h1.id).unwrap().is_committed);
    assert!(!store.get(&h2.id).unwrap().is_committed);
}

#[test]
fn block_ids_hash_the_header() {
    let g = Block::genesis(1, 1, 0);
    let a = block_on(&g, 1, 1);
    let mut changed = block_on(&g, 1, 1);
    assert_eq!(a.id, changed.id);
    changed = Block::new(1, g.id.clone(), qc(&g.id, 0, 1), 1, 1, 0, vec![0xA; 32], vec![1; 32], 1001, 5, vec![0x55; 32], vec![1]);
    assert_ne!(a.id, changed.id);
    let _spec = TariConsensusSpec;
}
