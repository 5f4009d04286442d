use vstd::prelude::*;
use crate::hashing::{blake2b_256, blake2b_256_of, push_bytes, push_u64_le, u64_le};

verus! {

/// A byte string preceded by its length, so that consecutive fields cannot run
/// into one another.
pub open spec fn framed(b: Seq<u8>) -> Seq<u8> {
    u64_le(b.len() as u64) + b
}

pub(crate) fn push_framed(out: &mut Vec<u8>, bytes: &Vec<u8>)
    ensures
        final(out)@ == old(out)@ + framed(bytes@),
{
    let ghost start = out@;
    push_u64_le(out, bytes.len() as u64);
    push_bytes(out, bytes);
    assert(out@ =~= start + framed(bytes@));
}

/// The mathematical value of a [`QuorumCertificate`].
pub struct QcModel {
    pub block_id: Seq<u8>,
    pub block_height: u64,
    pub epoch: u64,
    pub shard: u32,
}

/// A quorum certificate: the committee's agreement on exactly one block.
/// The signatures are checked elsewhere and are not carried here.
#[derive(Debug)]
pub struct QuorumCertificate {
    pub block_id: Vec<u8>,
    pub block_height: u64,
    pub epoch: u64,
    pub shard: u32,
}

impl View for QuorumCertificate {
    type V = QcModel;

    open spec fn view(&self) -> QcModel {
        QcModel {
            block_id: self.block_id@,
            block_height: self.block_height,
            epoch: self.epoch,
            shard: self.shard,
        }
    }
}

impl Clone for QuorumCertificate {
    fn clone(&self) -> (r: Self)
        ensures
            r@ == self@,
    {
        QuorumCertificate {
            block_id: self.block_id.clone(),
            block_height: self.block_height,
            epoch: self.epoch,
            shard: self.shard,
        }
    }
}

/// The identifier that stands for "no block": 32 zero bytes.
pub open spec fn zero_hash() -> Seq<u8> {
    Seq::new(32, |i: int| 0u8)
}

pub fn zero_hash_bytes() -> (r: Vec<u8>)
    ensures
        r@ == zero_hash(),
{
    let mut r: Vec<u8> = Vec::new();
    let mut i: usize = 0;
    while i < 32
        invariant
            i <= 32,
            r@ == Seq::new(i as nat, |j: int| 0u8),
        decreases 32 - i,
    {
        r.push(0u8);
        assert(r@ =~= Seq::new((i + 1) as nat, |j: int| 0u8));
        i = i + 1;
    }
    r
}

impl QuorumCertificate {
    /// The sentinel certificate carried by the genesis block.
    pub fn genesis(epoch: u64, shard: u32) -> (r: Self)
        ensures
            r.block_id@ == zero_hash(),
            r.block_height == 0,
            r.epoch == epoch,
            r.shard == shard,
    {
        QuorumCertificate { block_id: zero_hash_bytes(), block_height: 0, epoch, shard }
    }

    pub fn as_leaf_block(&self) -> (r: LeafBlock)
        ensures
            r.block_id@ == self.block_id@,
            r.height == self.block_height,
            r.epoch == self.epoch,
    {
        LeafBlock { block_id: self.block_id.clone(), height: self.block_height, epoch: self.epoch }
    }
}

/// The bytes of a certificate inside a block header.
pub open spec fn qc_preimage(q: QcModel) -> Seq<u8> {
    framed(q.block_id) + u64_le(q.block_height) + u64_le(q.epoch) + u64_le(q.shard as u64)
}

/// The deepest block a node considers its tip.
#[derive(Debug)]
pub struct LeafBlock {
    pub block_id: Vec<u8>,
    pub height: u64,
    pub epoch: u64,
}

/// The mathematical value of a [`Block`].
pub struct BlockModel {
    pub id: Seq<u8>,
    pub parent_id: Seq<u8>,
    pub height: u64,
    pub epoch: u64,
    pub shard: u32,
    pub network: u8,
    pub justify: QcModel,
    pub proposer: Seq<u8>,
    pub state_merkle_root: Seq<u8>,
    pub timestamp: u64,
    pub base_layer_block_height: u64,
    pub base_layer_block_hash: Seq<u8>,
    pub commands: Seq<u8>,
    pub is_dummy: bool,
    pub is_committed: bool,
}

/// The header bytes that a block's id is the hash of: every field but the
/// id itself and the commit flag.
pub open spec fn header_preimage(b: BlockModel) -> Seq<u8> {
    u64_le(b.network as u64) + framed(b.parent_id) + qc_preimage(b.justify) + u64_le(b.height)
        + u64_le(b.epoch) + u64_le(b.shard as u64) + framed(b.proposer) + framed(b.state_merkle_root)
        + u64_le(b.timestamp) + u64_le(b.base_layer_block_height) + framed(b.base_layer_block_hash)
        + u64_le(if b.is_dummy { 1u64 } else { 0u64 }) + framed(b.commands)
}

/// The id that the header of `b` hashes to.
pub open spec fn block_id_of(b: BlockModel) -> Seq<u8> {
    blake2b_256_of(header_preimage(b))
}

/// A block of the chain. Its id is the hash of its header.
#[derive(Debug)]
pub struct Block {
    pub id: Vec<u8>,
    pub parent_id: Vec<u8>,
    pub height: u64,
    pub epoch: u64,
    pub shard: u32,
    pub network: u8,
    pub justify: QuorumCertificate,
    pub proposer: Vec<u8>,
    pub state_merkle_root: Vec<u8>,
    pub timestamp: u64,
    pub base_layer_block_height: u64,
    pub base_layer_block_hash: Vec<u8>,
    pub commands: Vec<u8>,
    pub is_dummy: bool,
    pub is_committed: bool,
}

impl View for Block {
    type V = BlockModel;

    open spec fn view(&self) -> BlockModel {
        BlockModel {
            id: self.id@,
            parent_id: self.parent_id@,
            height: self.height,
            epoch: self.epoch,
            shard: self.shard,
            network: self.network,
            justify: self.justify@,
            proposer: self.proposer@,
            state_merkle_root: self.state_merkle_root@,
            timestamp: self.timestamp,
            base_layer_block_height: self.base_layer_block_height,
            base_layer_block_hash: self.base_layer_block_hash@,
            commands: self.commands@,
            is_dummy: self.is_dummy,
            is_committed: self.is_committed,
        }
    }
}

impl Clone for Block {
    fn clone(&self) -> (r: Self)
        ensures
            r@ == self@,
    {
        Block {
            id: self.id.clone(),
            parent_id: self.parent_id.clone(),
            height: self.height,
            epoch: self.epoch,
            shard: self.shard,
            network: self.network,
            justify: self.justify.clone(),
            proposer: self.proposer.clone(),
            state_merkle_root: self.state_merkle_root.clone(),
            timestamp: self.timestamp,
            base_layer_block_height: self.base_layer_block_height,
            base_layer_block_hash: self.base_layer_block_hash.clone(),
            commands: self.commands.clone(),
            is_dummy: self.is_dummy,
            is_committed: self.is_committed,
        }
    }
}

impl Block {
    /// A block whose id matches its header.
    pub open spec fn wf(&self) -> bool {
        self.id@ == block_id_of(self@)
    }

    /// The header bytes of this block.
    fn header_bytes(&self) -> (r: Vec<u8>)
        ensures
            r@ == header_preimage(self@),
    {
        let mut out: Vec<u8> = Vec::new();
        push_u64_le(&mut out, self.network as u64);
        push_framed(&mut out, &self.parent_id);
        push_framed(&mut out, &self.justify.block_id);
        push_u64_le(&mut out, self.justify.block_height);
        push_u64_le(&mut out, self.justify.epoch);
        push_u64_le(&mut out, self.justify.shard as u64);
        push_u64_le(&mut out, self.height);
        push_u64_le(&mut out, self.epoch);
        push_u64_le(&mut out, self.shard as u64);
        push_framed(&mut out, &self.proposer);
        push_framed(&mut out, &self.state_merkle_root);
        push_u64_le(&mut out, self.timestamp);
        push_u64_le(&mut out, self.base_layer_block_height);
        push_framed(&mut out, &self.base_layer_block_hash);
        push_u64_le(&mut out, if self.is_dummy { 1u64 } else { 0u64 });
        push_framed(&mut out, &self.commands);
        assert(out@ =~= header_preimage(self@));
        out
    }

    /// Builds a block and gives it the id its header hashes to.
    pub fn new(
        network: u8,
        parent_id: Vec<u8>,
        justify: QuorumCertificate,
        height: u64,
        epoch: u64,
        shard: u32,
        proposer: Vec<u8>,
        state_merkle_root: Vec<u8>,
        timestamp: u64,
        base_layer_block_height: u64,
        base_layer_block_hash: Vec<u8>,
        commands: Vec<u8>,
    ) -> (r: Self)
        ensures
            r.wf(),
            r.parent_id@ == parent_id@,
            r.justify@ == justify@,
            r.height == height,
            r.epoch == epoch,
            r.shard == shard,
            r.network == network,
            r.proposer@ == proposer@,
            r.state_merkle_root@ == state_merkle_root@,
            r.timestamp == timestamp,
            r.base_layer_block_height == base_layer_block_height,
            r.base_layer_block_hash@ == base_layer_block_hash@,
            r.commands@ == commands@,
            !r.is_dummy,
            !r.is_committed,
    {
        let mut b = Block {
            id: Vec::new(),
            parent_id,
            height,
            epoch,
            shard,
            network,
            justify,
            proposer,
            state_merkle_root,
            timestamp,
            base_layer_block_height,
            base_layer_block_hash,
            commands,
            is_dummy: false,
            is_committed: false,
        };
        let preimage = b.header_bytes();
        b.id = blake2b_256(&preimage);
        b
    }

    /// A placeholder block for a height whose leader failed to propose. It
    /// carries no commands and reuses its parent's state root and base-layer
    /// pointers.
    pub fn dummy_block(
        network: u8,
        parent_id: Vec<u8>,
        proposer: Vec<u8>,
        height: u64,
        justify: QuorumCertificate,
        epoch: u64,
        shard: u32,
        parent_merkle_root: Vec<u8>,
        parent_timestamp: u64,
        parent_base_layer_block_height: u64,
        parent_base_layer_block_hash: Vec<u8>,
    ) -> (r: Self)
        ensures
            r.wf(),
            r@ == dummy_model(
                network,
                parent_id@,
                proposer@,
                height,
                justify@,
                epoch,
                shard,
                parent_merkle_root@,
                parent_timestamp,
                parent_base_layer_block_height,
                parent_base_layer_block_hash@,
            ),
    {
        let mut b = Block {
            id: Vec::new(),
            parent_id,
            height,
            epoch,
            shard,
            network,
            justify,
            proposer,
            state_merkle_root: parent_merkle_root,
            timestamp: parent_timestamp,
            base_layer_block_height: parent_base_layer_block_height,
            base_layer_block_hash: parent_base_layer_block_hash,
            commands: Vec::new(),
            is_dummy: true,
            is_committed: false,
        };
        let preimage = b.header_bytes();
        b.id = blake2b_256(&preimage);
        proof {
            assert(b@.commands =~= Seq::<u8>::empty());
        }
        b
    }

    /// The genesis block of an epoch and shard: height zero, the sentinel
    /// certificate, and the zero hash as parent and state root.
    pub fn genesis(network: u8, epoch: u64, shard: u32) -> (r: Self)
        ensures
            r.wf(),
            r.height == 0,
            r.epoch == epoch,
            r.shard == shard,
            r.is_genesis_spec(),
    {
        Block::new(
            network,
            zero_hash_bytes(),
            QuorumCertificate::genesis(epoch, shard),
            0,
            epoch,
            shard,
            Vec::new(),
            zero_hash_bytes(),
            0,
            0,
            zero_hash_bytes(),
            Vec::new(),
        )
    }

    pub open spec fn is_genesis_spec(&self) -> bool {
        self.height == 0
    }

    /// Whether this is the genesis block (the only block at height zero).
    pub fn is_genesis(&self) -> (r: bool)
        ensures
            r == self.is_genesis_spec(),
    {
        self.height == 0
    }

    pub fn as_leaf_block(&self) -> (r: LeafBlock)
        ensures
            r.block_id@ == self.id@,
            r.height == self.height,
            r.epoch == self.epoch,
    {
        LeafBlock { block_id: self.id.clone(), height: self.height, epoch: self.epoch }
    }
}

/// The value of the dummy block built from these fields.
pub open spec fn dummy_model(
    network: u8,
    parent_id: Seq<u8>,
    proposer: Seq<u8>,
    height: u64,
    justify: QcModel,
    epoch: u64,
    shard: u32,
    merkle_root: Seq<u8>,
    timestamp: u64,
    base_layer_block_height: u64,
    base_layer_block_hash: Seq<u8>,
) -> BlockModel {
    let b = BlockModel {
        id: Seq::empty(),
        parent_id,
        height,
        epoch,
        shard,
        network,
        justify,
        proposer,
        state_merkle_root: merkle_root,
        timestamp,
        base_layer_block_height,
        base_layer_block_hash,
        commands: Seq::empty(),
        is_dummy: true,
        is_committed: false,
    };
    BlockModel { id: block_id_of(b), ..b }
}

} // verus!
