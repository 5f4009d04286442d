use blake2::Digest;
use tari_dan_core::state_tree::{
    calculate_state_merkle_diff, diff_to_substate_changes, PendingStateTreeDiff, StagedTreeStore, StateTreeError,
    SubstateDiff, SubstateDown, SubstateTreeChange, SubstateUp, TreeStore,
};

fn blake(data: &[u8]) -> Vec<u8> {
    blake2::Blake2b::<digest::consts::U32>::digest(data).to_vec()
}

fn key(id: u64) -> Vec<u8> {
    blake(&id.to_le_bytes())
}

fn bit(key: &[u8], d: usize) -> bool {
    (key[d / 8] >> (7 - d % 8)) & 1 == 1
}

fn node(leaves: &[(Vec<u8>, Vec<u8>)], d: usize) -> Vec<u8> {
    match leaves.len() {
        0 => vec![0; 32],
        1 => blake(&[&[0u8][..], &leaves[0].0, &leaves[0].1].concat()),
        _ => {
            let left: Vec<_> = leaves.iter().filter(|l| !bit(&l.0, d)).cloned().collect();
            let right: Vec<_> = leaves.iter().filter(|l| bit(&l.0, d)).cloned().collect();
            blake(&[&[1u8][..], &node(&left, d + 1), &node(&right, d + 1)].concat())
        },
    }
}

fn root_of(leaves: &[(u64, Vec<u8>)]) -> Vec<u8> {
    let keyed: Vec<(Vec<u8>, Vec<u8>)> = leaves.iter().map(|(id, h)| (key(*id), h.clone())).collect();
    node(&keyed, 0)
}

fn up(id: u64, byte: u8) -> SubstateTreeChange {
    SubstateTreeChange::Up { id, value_hash: vec![byte; 32] }
}

#[test]
fn state_root_across_two_versions() {
    let tx = TreeStore::new();
    let (root1, diff1) = calculate_state_merkle_diff(&tx, 0, 1, vec![], vec![up(1, 0xAA)]).unwrap();
    assert_eq!(root1, root_of(&[(1, vec![0xAA; 32])]));
    assert_eq!(root1, blake(&[&[0u8][..], &key(1), &[0xAA; 32]].concat()));
    assert_ne!(root1, vec![0; 32]);
    assert_eq!(diff1.version, 1);
    let pending = vec![PendingStateTreeDiff { block_id: vec![1; 32], version: 1, diff: diff1 }];
    let (root2, diff2) =
        calculate_state_merkle_diff(&tx, 1, 2, pending, vec![SubstateTreeChange::Down { id: 1 }, up(2, 0xBB)]).unwrap();
    assert_eq!(root2, root_of(&[(2, vec![0xBB; 32])]));
    assert_ne!(root1, root2);
    assert_eq!(diff2.version, 2);
    assert_eq!(diff2.changes.len(), 2);
}

#[test]
fn change_order_of_distinct_keys_does_not_change_root() {
    let tx = TreeStore::new();
    let (a, da) = calculate_state_merkle_diff(&tx, 0, 1, vec![], vec![up(3, 1), up(2, 2), up(9, 3)]).unwrap();
    let (b, db) = calculate_state_merkle_diff(&tx, 0, 1, vec![], vec![up(9, 3), up(3, 1), up(2, 2)]).unwrap();
    assert_eq!(a, b);
    let ids = |d: &tari_dan_core::state_tree::StateHashTreeDiff| {
        d.changes
            .iter()
            .map(|c| match c {
                SubstateTreeChange::Up { id, .. } => *id,
                SubstateTreeChange::Down { id } => *id,
            })
            .collect::<Vec<_>>()
    };
    assert_eq!(ids(&da), vec![2, 3, 9]);
    assert_eq!(ids(&db), vec![2, 3, 9]);
    assert_eq!(a, root_of(&[(2, vec![2; 32]), (3, vec![1; 32]), (9, vec![3; 32])]));
}

#[test]
fn up_replaces_existing_leaf() {
    let tx = TreeStore::new();
    let (r, _) = calculate_state_merkle_diff(&tx, 0, 1, vec![], vec![up(4, 1), up(4, 2)]).unwrap();
    assert_eq!(r, root_of(&[(4, vec![2; 32])]));
}

#[test]
fn empty_changes_keep_the_staged_root() {
    let tx = TreeStore::new();
    let mut staged = StagedTreeStore::new(&tx);
    staged.put_substate_changes(None, 1, &vec![up(5, 0x11)]).unwrap();
    let before = staged.root();
    let mut fresh = StagedTreeStore::new(&tx);
    fresh.leaves = staged.leaves.clone();
    let root = fresh.put_substate_changes(Some(1), 2, &vec![]).unwrap();
    assert_eq!(root, before);
    assert!(fresh.into_diff().changes.is_empty());
    assert_eq!(StagedTreeStore::new(&tx).root(), vec![0; 32]);
}

#[test]
fn missing_node_and_version_mismatch() {
    let tx = TreeStore::new();
    assert_eq!(
        calculate_state_merkle_diff(&tx, 0, 1, vec![], vec![SubstateTreeChange::Down { id: 8 }]).unwrap_err(),
        StateTreeError::MissingNode
    );
    assert_eq!(calculate_state_merkle_diff(&tx, 3, 3, vec![], vec![up(1, 1)]).unwrap_err(), StateTreeError::VersionMismatch);
    assert_eq!(calculate_state_merkle_diff(&tx, 3, 2, vec![], vec![]).unwrap_err(), StateTreeError::VersionMismatch);
    // Version zero means no version yet: any next version is accepted.
    assert!(calculate_state_merkle_diff(&tx, 0, 0, vec![], vec![]).is_ok());
    let bad_pending = vec![PendingStateTreeDiff {
        block_id: vec![2; 32],
        version: 1,
        diff: tari_dan_core::state_tree::StateHashTreeDiff { version: 1, changes: vec![SubstateTreeChange::Down { id: 1 }] },
    }];
    assert_eq!(calculate_state_merkle_diff(&tx, 1, 2, bad_pending, vec![]).unwrap_err(), StateTreeError::MissingNode);
    // The versions are checked before any diff is applied.
    let bad_pending = vec![PendingStateTreeDiff {
        block_id: vec![2; 32],
        version: 1,
        diff: tari_dan_core::state_tree::StateHashTreeDiff { version: 1, changes: vec![SubstateTreeChange::Down { id: 1 }] },
    }];
    assert_eq!(calculate_state_merkle_diff(&tx, 2, 2, bad_pending, vec![]).unwrap_err(), StateTreeError::VersionMismatch);
}

#[test]
fn failed_put_leaves_overlay_unchanged() {
    let tx = TreeStore::new();
    let mut staged = StagedTreeStore::new(&tx);
    staged.put_substate_changes(None, 1, &vec![up(1, 1)]).unwrap();
    let root = staged.root();
    assert!(staged.put_substate_changes(Some(1), 2, &vec![up(2, 2), SubstateTreeChange::Down { id: 7 }]).is_err());
    assert_eq!(staged.root(), root);
    assert_eq!(staged.version, 1);
}

#[test]
fn substate_diff_becomes_downs_then_ups() {
    let diff = SubstateDiff {
        down: vec![SubstateDown { id: 4, version: 0 }],
        up: vec![SubstateUp { id: 4, value: vec![1, 2, 3] }, SubstateUp { id: 6, value: vec![] }],
    };
    let changes = diff_to_substate_changes(&diff);
    assert_eq!(changes.len(), 3);
    assert!(matches!(changes[0], SubstateTreeChange::Down { id: 4 }));
    match &changes[1] {
        SubstateTreeChange::Up { id, value_hash } => {
            assert_eq!(*id, 4);
            assert_eq!(*value_hash, blake(&[1, 2, 3]));
        },
        _ => panic!("expected an insertion"),
    }
    match &changes[2] {
        SubstateTreeChange::Up { id, value_hash } => {
            assert_eq!(*id, 6);
            assert_eq!(*value_hash, blake(&[]));
        },
        _ => panic!("expected an insertion"),
    }
}

#[test]
fn version_zero_starts_from_no_tree() {
    let mut tx = TreeStore::new();
    tx.leaves.push(tari_dan_core::state_tree::Leaf { key: 7, value_hash: vec![7; 32] });
    let (r, _) = calculate_state_merkle_diff(&tx, 0, 1, vec![], vec![up(1, 0xAA)]).unwrap();
    assert_eq!(r, root_of(&[(1, vec![0xAA; 32])]));
    let (r, _) = calculate_state_merkle_diff(&tx, 1, 2, vec![], vec![up(1, 0xAA)]).unwrap();
    assert_eq!(r, root_of(&[(1, vec![0xAA; 32]), (7, vec![7; 32])]));
}

#[test]
fn many_leaves_root() {
    let tx = TreeStore::new();
    let changes: Vec<_> = (0..20u64).map(|i| up(i * 13 + 1, i as u8)).collect();
    let (r, _) = calculate_state_merkle_diff(&tx, 0, 1, vec![], changes).unwrap();
    let leaves: Vec<(u64, Vec<u8>)> = (0..20u64).map(|i| (i * 13 + 1, vec![i as u8; 32])).collect();
    assert_eq!(r, root_of(&leaves));
}
