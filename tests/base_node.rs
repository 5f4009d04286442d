use tari_crypto::keys::PublicKey;
use tari_crypto::ristretto::RistrettoPublicKey;
use tari_crypto::tari_utilities::ByteArray;
use tari_dan_core::base_node::{
    block_info_from, shard_key_address, shard_key_from_response, tip_info_from, validator_node_from,
    validator_nodes_from, BaseNodeClientError, PeerMessageFault, TipMetadata, ValidatorNodeRecord,
};

fn key_bytes() -> Vec<u8> {
    let (_, p) = RistrettoPublicKey::random_keypair(&mut rand::rng());
    p.as_bytes().to_vec()
}

fn invalid(f: PeerMessageFault) -> BaseNodeClientError {
    BaseNodeClientError::InvalidPeerMessage(f)
}

#[test]
fn shard_key_is_padded_with_version_zero() {
    let hash: Vec<u8> = (0..32).collect();
    let mut expected = hash.clone();
    expected.extend_from_slice(&[0, 0, 0, 0]);
    assert_eq!(shard_key_address(&hash).unwrap(), expected);
    assert_eq!(shard_key_address(&vec![1; 31]).unwrap_err(), invalid(PeerMessageFault::InvalidShardKey));
    assert_eq!(shard_key_from_response(&vec![]).unwrap(), None);
    assert_eq!(shard_key_from_response(&hash).unwrap(), Some(expected));
    assert!(shard_key_from_response(&vec![1; 33]).is_err());
}

#[test]
fn tip_info_needs_metadata_and_hash() {
    assert_eq!(tip_info_from(None).unwrap_err(), invalid(PeerMessageFault::NoMetadata));
    let bad = TipMetadata { best_block_height: 3, best_block_hash: vec![1; 5] };
    assert_eq!(tip_info_from(Some(bad)).unwrap_err(), invalid(PeerMessageFault::InvalidTipHash));
    let ok = tip_info_from(Some(TipMetadata { best_block_height: 9, best_block_hash: vec![2; 32] })).unwrap();
    assert_eq!(ok.height_of_longest_chain, 9);
    assert_eq!(ok.tip_hash, vec![2; 32]);
}

#[test]
fn validator_node_records_convert() {
    let pk = key_bytes();
    let side = key_bytes();
    let n = validator_node_from(&ValidatorNodeRecord { public_key: pk.clone(), shard_key: vec![4; 32], sidechain_id: vec![] })
        .unwrap();
    assert_eq!(n.public_key, pk);
    assert_eq!(n.shard_key.len(), 36);
    assert!(n.sidechain_id.is_none());
    let n = validator_node_from(&ValidatorNodeRecord { public_key: pk.clone(), shard_key: vec![4; 32], sidechain_id: side.clone() })
        .unwrap();
    assert_eq!(n.sidechain_id.unwrap(), side);
    let e = validator_node_from(&ValidatorNodeRecord { public_key: vec![1; 3], shard_key: vec![4; 32], sidechain_id: vec![] });
    assert_eq!(e.unwrap_err(), invalid(PeerMessageFault::InvalidPublicKey));
    let e = validator_node_from(&ValidatorNodeRecord { public_key: pk.clone(), shard_key: vec![4; 3], sidechain_id: vec![] });
    assert_eq!(e.unwrap_err(), invalid(PeerMessageFault::InvalidShardKey));
    let e = validator_node_from(&ValidatorNodeRecord { public_key: pk.clone(), shard_key: vec![4; 32], sidechain_id: vec![9; 4] });
    assert_eq!(e.unwrap_err(), invalid(PeerMessageFault::InvalidSidechainId));

    let records = vec![
        ValidatorNodeRecord { public_key: pk.clone(), shard_key: vec![1; 32], sidechain_id: vec![] },
        ValidatorNodeRecord { public_key: key_bytes(), shard_key: vec![2; 32], sidechain_id: vec![] },
    ];
    let nodes = validator_nodes_from(&records).unwrap();
    assert_eq!(nodes.len(), 2);
    assert_eq!(nodes[1].shard_key[..32], [2u8; 32]);
    assert!(validator_nodes_from(&vec![]).unwrap().is_empty());
    let mut bad = records;
    bad.push(ValidatorNodeRecord { public_key: vec![], shard_key: vec![1; 32], sidechain_id: vec![] });
    assert!(validator_nodes_from(&bad).is_err());
}

#[test]
fn block_info_hashes() {
    let b = block_info_from(5, &vec![1; 32], &vec![]).unwrap();
    assert_eq!((b.height, b.hash.clone(), b.next_block_hash.is_none()), (5, vec![1; 32], true));
    let b = block_info_from(5, &vec![1; 32], &vec![2; 32]).unwrap();
    assert_eq!(b.next_block_hash, Some(vec![2; 32]));
    assert_eq!(block_info_from(5, &vec![1; 31], &vec![]).unwrap_err(), invalid(PeerMessageFault::InvalidBlockHash));
    assert!(block_info_from(5, &vec![1; 32], &vec![2; 3]).is_err());
}
