use vstd::prelude::*;
use crate::crypto::{canonical_point_of, public_key_from_bytes};
use crate::hashing::copy_range;

verus! {

/// What was wrong with a message from the base node.
#[derive(Debug, Clone, Copy, PartialEq, Eq)]
pub enum PeerMessageFault {
    NoMetadata,
    InvalidTipHash,
    InvalidPublicKey,
    InvalidShardKey,
    InvalidSidechainId,
    NoBlockInfo,
    InvalidBlockHash,
    StreamError,
}

/// Errors of the base-node client.
#[derive(Debug, Clone, Copy, PartialEq, Eq)]
pub enum BaseNodeClientError {
    ConnectionError,
    InvalidPeerMessage(PeerMessageFault),
}

/// The tip of the base chain.
#[derive(Debug)]
pub struct BaseLayerMetadata {
    pub height_of_longest_chain: u64,
    pub tip_hash: Vec<u8>,
}

/// Chain metadata as the base node sends it.
#[derive(Debug)]
pub struct TipMetadata {
    pub best_block_height: u64,
    pub best_block_hash: Vec<u8>,
}

/// The tip from a tip-info response, which must carry metadata with a 32-byte
/// hash.
pub fn tip_info_from(metadata: Option<TipMetadata>) -> (r: Result<BaseLayerMetadata, BaseNodeClientError>)
    ensures
        metadata is None ==> r == Err::<BaseLayerMetadata, _>(
            BaseNodeClientError::InvalidPeerMessage(PeerMessageFault::NoMetadata),
        ),
        metadata is Some && metadata->Some_0.best_block_hash@.len() != 32 ==> r == Err::<
            BaseLayerMetadata,
            _,
        >(BaseNodeClientError::InvalidPeerMessage(PeerMessageFault::InvalidTipHash)),
        metadata is Some && metadata->Some_0.best_block_hash@.len() == 32 ==> r is Ok
            && r->Ok_0.height_of_longest_chain == metadata->Some_0.best_block_height
            && r->Ok_0.tip_hash@ == metadata->Some_0.best_block_hash@,
{
    match metadata {
        None => Err(BaseNodeClientError::InvalidPeerMessage(PeerMessageFault::NoMetadata)),
        Some(m) => {
            if m.best_block_hash.len() != 32 {
                return Err(BaseNodeClientError::InvalidPeerMessage(PeerMessageFault::InvalidTipHash));
            }
            Ok(BaseLayerMetadata { height_of_longest_chain: m.best_block_height, tip_hash: m.best_block_hash })
        },
    }
}

/// The 36-byte substate address of a validator's 32-byte shard key: the hash
/// followed by version zero.
pub open spec fn shard_address(hash: Seq<u8>) -> Seq<u8> {
    hash + seq![0u8, 0u8, 0u8, 0u8]
}

/// The substate address of a shard key, which must be a 32-byte hash.
pub fn shard_key_address(shard_key: &Vec<u8>) -> (r: Result<Vec<u8>, BaseNodeClientError>)
    ensures
        shard_key@.len() == 32 ==> r is Ok && r->Ok_0@ == shard_address(shard_key@),
        shard_key@.len() != 32 ==> r == Err::<Vec<u8>, _>(
            BaseNodeClientError::InvalidPeerMessage(PeerMessageFault::InvalidShardKey),
        ),
{
    if shard_key.len() != 32 {
        return Err(BaseNodeClientError::InvalidPeerMessage(PeerMessageFault::InvalidShardKey));
    }
    let mut out = copy_range(shard_key, 0, 32);
    out.push(0u8);
    out.push(0u8);
    out.push(0u8);
    out.push(0u8);
    assert(out@ =~= shard_address(shard_key@));
    Ok(out)
}

/// The shard key in a shard-key response: none where the response is empty.
pub fn shard_key_from_response(shard_key: &Vec<u8>) -> (r: Result<Option<Vec<u8>>, BaseNodeClientError>)
    ensures
        shard_key@.len() == 0 ==> r == Ok::<Option<Vec<u8>>, BaseNodeClientError>(None),
        shard_key@.len() == 32 ==> r is Ok && r->Ok_0 is Some && r->Ok_0->Some_0@ == shard_address(
            shard_key@,
        ),
        shard_key@.len() != 0 && shard_key@.len() != 32 ==> r == Err::<Option<Vec<u8>>, _>(
            BaseNodeClientError::InvalidPeerMessage(PeerMessageFault::InvalidShardKey),
        ),
{
    if shard_key.len() == 0 {
        return Ok(None);
    }
    match shard_key_address(shard_key) {
        Ok(a) => Ok(Some(a)),
        Err(e) => Err(e),
    }
}

/// A validator node as the base node streams it.
#[derive(Debug)]
pub struct ValidatorNodeRecord {
    pub public_key: Vec<u8>,
    pub shard_key: Vec<u8>,
    pub sidechain_id: Vec<u8>,
}

/// An active validator node of the base layer.
#[derive(Debug)]
pub struct BaseLayerValidatorNode {
    /// A canonical public key encoding.
    pub public_key: Vec<u8>,
    pub shard_key: Vec<u8>,
    /// A canonical public key encoding, where the node belongs to a sidechain.
    pub sidechain_id: Option<Vec<u8>>,
}

/// `n` is the node that record `rec` describes.
pub open spec fn node_of(n: BaseLayerValidatorNode, rec: ValidatorNodeRecord) -> bool {
    &&& n.public_key@ == rec.public_key@
    &&& n.shard_key@ == shard_address(rec.shard_key@)
    &&& (n.sidechain_id is None <==> rec.sidechain_id@.len() == 0)
    &&& (n.sidechain_id is Some ==> n.sidechain_id->Some_0@ == rec.sidechain_id@)
}

/// The record converts: a canonical public key, a 32-byte shard key, and an
/// empty or canonical sidechain id.
pub open spec fn record_converts(r: ValidatorNodeRecord) -> bool {
    &&& canonical_point_of(r.public_key@)
    &&& r.shard_key@.len() == 32
    &&& (r.sidechain_id@.len() == 0 || canonical_point_of(r.sidechain_id@))
}

/// A validator node from its record: a valid public key, a 32-byte shard key
/// (stored as its substate address), and a sidechain id that is either empty
/// (none) or a valid public key. Checked in that order.
pub fn validator_node_from(record: &ValidatorNodeRecord) -> (r: Result<BaseLayerValidatorNode, BaseNodeClientError>)
    ensures
        r is Ok <==> record_converts(*record),
        r is Ok ==> node_of(r->Ok_0, *record),
        r is Err ==> r == Err::<BaseLayerValidatorNode, _>(
            BaseNodeClientError::InvalidPeerMessage(PeerMessageFault::InvalidPublicKey),
        ) || r == Err::<BaseLayerValidatorNode, _>(
            BaseNodeClientError::InvalidPeerMessage(PeerMessageFault::InvalidShardKey),
        ) || r == Err::<BaseLayerValidatorNode, _>(
            BaseNodeClientError::InvalidPeerMessage(PeerMessageFault::InvalidSidechainId),
        ),
        record.public_key@.len() != 32 ==> r == Err::<BaseLayerValidatorNode, _>(
            BaseNodeClientError::InvalidPeerMessage(PeerMessageFault::InvalidPublicKey),
        ),
{
    if public_key_from_bytes(&record.public_key).is_none() {
        return Err(BaseNodeClientError::InvalidPeerMessage(PeerMessageFault::InvalidPublicKey));
    }
    let shard_key = match shard_key_address(&record.shard_key) {
        Ok(a) => a,
        Err(e) => {
            return Err(e);
        },
    };
    let sidechain_id = if record.sidechain_id.len() == 0 {
        None
    } else {
        if public_key_from_bytes(&record.sidechain_id).is_none() {
            return Err(BaseNodeClientError::InvalidPeerMessage(PeerMessageFault::InvalidSidechainId));
        }
        Some(record.sidechain_id.clone())
    };
    Ok(BaseLayerValidatorNode { public_key: record.public_key.clone(), shard_key, sidechain_id })
}

/// The validator nodes of a stream of records, in order. The first record
/// that does not convert ends the stream with its error.
pub fn validator_nodes_from(records: &Vec<ValidatorNodeRecord>) -> (r: Result<Vec<BaseLayerValidatorNode>, BaseNodeClientError>)
    ensures
        r is Ok ==> r->Ok_0@.len() == records@.len() && forall|i: int|
            0 <= i < records@.len() ==> node_of(#[trigger] r->Ok_0@[i], records@[i]),
        r is Ok <==> forall|i: int| 0 <= i < records@.len() ==> record_converts(#[trigger] records@[i]),
{
    let mut out: Vec<BaseLayerValidatorNode> = Vec::new();
    let mut i: usize = 0;
    while i < records.len()
        invariant
            0 <= i <= records@.len(),
            out@.len() == i,
            forall|j: int| 0 <= j < i ==> node_of(#[trigger] out@[j], records@[j]),
            forall|j: int| 0 <= j < i ==> record_converts(#[trigger] records@[j]),
        decreases records@.len() - i,
    {
        match validator_node_from(&records[i]) {
            Ok(v) => {
                out.push(v);
            },
            Err(e) => {
                return Err(e);
            },
        }
        i = i + 1;
    }
    Ok(out)
}

/// Where a block sits in the base chain, and the block after it if known.
#[derive(Debug)]
pub struct BlockInfo {
    pub height: u64,
    pub hash: Vec<u8>,
    pub next_block_hash: Option<Vec<u8>>,
}

/// Block info from a response: 32-byte hashes, and no next block where its
/// hash is empty.
pub fn block_info_from(height: u64, hash: &Vec<u8>, next_block_hash: &Vec<u8>) -> (r: Result<BlockInfo, BaseNodeClientError>)
    ensures
        (hash@.len() == 32 && (next_block_hash@.len() == 0 || next_block_hash@.len() == 32)) <==> r is Ok,
        r is Err ==> r == Err::<BlockInfo, _>(BaseNodeClientError::InvalidPeerMessage(PeerMessageFault::InvalidBlockHash)),
        r is Ok ==> r->Ok_0.height == height && r->Ok_0.hash@ == hash@ && (r->Ok_0.next_block_hash is None
            <==> next_block_hash@.len() == 0) && (r->Ok_0.next_block_hash is Some
            ==> r->Ok_0.next_block_hash->Some_0@ == next_block_hash@),
{
    if hash.len() != 32 || (next_block_hash.len() != 0 && next_block_hash.len() != 32) {
        return Err(BaseNodeClientError::InvalidPeerMessage(PeerMessageFault::InvalidBlockHash));
    }
    let next = if next_block_hash.len() == 0 {
        None
    } else {
        Some(next_block_hash.clone())
    };
    let h = hash.clone();
    Ok(BlockInfo { height, hash: h, next_block_hash: next })
}

} // verus!
