use vstd::prelude::*;
use crate::block::{dummy_model, Block, BlockModel, LeafBlock, QcModel, QuorumCertificate};
use crate::hashing::bytes_eq;
use crate::leader::{leader_of, RoundRobinLeaderStrategy};

verus! {

/// Everything a run of dummy blocks inherits from the certificate it starts at
/// and from the block that certificate justifies.
pub struct DummyContext {
    pub network: u8,
    pub epoch: u64,
    pub shard: u32,
    pub justify: QcModel,
    pub merkle_root: Seq<u8>,
    pub committee: Seq<Vec<u8>>,
    pub timestamp: u64,
    pub base_layer_block_height: u64,
    pub base_layer_block_hash: Seq<u8>,
}

/// The `i`-th dummy (counting from zero) after the certificate, given its parent.
pub open spec fn expected_dummy(ctx: DummyContext, i: nat, parent_id: Seq<u8>) -> BlockModel {
    let h = (ctx.justify.block_height + 1 + i) as u64;
    dummy_model(
        ctx.network,
        parent_id,
        leader_of(ctx.committee, h),
        h,
        ctx.justify,
        ctx.epoch,
        ctx.shard,
        ctx.merkle_root,
        ctx.timestamp,
        ctx.base_layer_block_height,
        ctx.base_layer_block_hash,
    )
}

/// The first `n` dummy blocks after the certificate: the first one's parent is
/// the certified block, each later one's parent is the dummy before it.
pub open spec fn dummy_chain(ctx: DummyContext, n: nat) -> Seq<BlockModel>
    decreases n,
{
    if n == 0 {
        Seq::empty()
    } else {
        let prev = dummy_chain(ctx, (n - 1) as nat);
        let parent = if n == 1 { ctx.justify.block_id } else { prev.last().id };
        prev.push(expected_dummy(ctx, (n - 1) as nat, parent))
    }
}

pub open spec fn models(blocks: Seq<Block>) -> Seq<BlockModel> {
    blocks.map_values(|b: Block| b@)
}

pub proof fn lemma_dummy_chain_len(ctx: DummyContext, n: nat)
    ensures
        dummy_chain(ctx, n).len() == n,
    decreases n,
{
    if n > 0 {
        lemma_dummy_chain_len(ctx, (n - 1) as nat);
    }
}

/// A shorter chain is a prefix of a longer one.
pub proof fn lemma_dummy_chain_prefix(ctx: DummyContext, m: nat, n: nat)
    requires
        m <= n,
    ensures
        dummy_chain(ctx, n).subrange(0, m as int) == dummy_chain(ctx, m),
    decreases n,
{
    lemma_dummy_chain_len(ctx, n);
    lemma_dummy_chain_len(ctx, m);
    if m < n {
        lemma_dummy_chain_prefix(ctx, m, (n - 1) as nat);
        lemma_dummy_chain_len(ctx, (n - 1) as nat);
        assert(dummy_chain(ctx, n).subrange(0, m as int) =~= dummy_chain(ctx, (n - 1) as nat).subrange(
            0,
            m as int,
        ));
    } else {
        assert(dummy_chain(ctx, n).subrange(0, m as int) =~= dummy_chain(ctx, n));
    }
}

/// Every run of dummy blocks climbs one height at a time from the certified
/// height, starts at the certified block, links each dummy to the one before it,
/// and gives each height its round-robin leader.
pub proof fn lemma_dummy_chain_links(ctx: DummyContext, n: nat)
    requires
        ctx.justify.block_height + n <= u64::MAX,
    ensures
        dummy_chain(ctx, n).len() == n,
        forall|i: int|
            0 <= i < n ==> {
                &&& (#[trigger] dummy_chain(ctx, n)[i]).height == ctx.justify.block_height + 1 + i
                &&& dummy_chain(ctx, n)[i].proposer == leader_of(
                    ctx.committee,
                    dummy_chain(ctx, n)[i].height,
                )
                &&& dummy_chain(ctx, n)[i].is_dummy
            },
        n > 0 ==> dummy_chain(ctx, n)[0].parent_id == ctx.justify.block_id,
        forall|i: int|
            0 < i < n ==> {
                &&& (#[trigger] dummy_chain(ctx, n)[i]).parent_id == dummy_chain(ctx, n)[i - 1].id
                &&& dummy_chain(ctx, n)[i].height == dummy_chain(ctx, n)[i - 1].height + 1
            },
    decreases n,
{
    lemma_dummy_chain_len(ctx, n);
    if n > 0 {
        let m = (n - 1) as nat;
        lemma_dummy_chain_links(ctx, m);
        lemma_dummy_chain_len(ctx, m);
        let c = dummy_chain(ctx, n);
        let p = dummy_chain(ctx, m);
        assert forall|i: int| 0 <= i < m implies c[i] == p[i] by {
            assert(c[i] == p.push(c.last())[i]);
        }
        if n == 1 {
            assert(c[0].parent_id == ctx.justify.block_id);
        } else {
            assert(c[0] == p[0]);
        }
    }
}

/// Whether `id` is the id that dummy synthesis stops at.
fn hits_stop(id: &Vec<u8>, stop_at: &Option<Vec<u8>>) -> (r: bool)
    ensures
        r == (stop_at is Some && stop_at->Some_0@ == id@),
{
    match stop_at {
        Some(s) => bytes_eq(s, id),
        None => false,
    }
}

/// Synthesises the dummy blocks from the certified height up to `new_height`,
/// stopping early after the dummy whose id is `stop_at`, if one is given.
fn with_dummy_blocks(
    network: u8,
    epoch: u64,
    shard: u32,
    high_qc: &QuorumCertificate,
    parent_merkle_root: &Vec<u8>,
    new_height: u64,
    leader_strategy: &RoundRobinLeaderStrategy,
    local_committee: &Vec<Vec<u8>>,
    parent_timestamp: u64,
    parent_base_layer_block_height: u64,
    parent_base_layer_block_hash: &Vec<u8>,
    stop_at: &Option<Vec<u8>>,
) -> (r: Vec<Block>)
    requires
        high_qc.block_height < new_height ==> local_committee@.len() > 0,
    ensures
        ({
            let ctx = DummyContext {
                network,
                epoch,
                shard,
                justify: high_qc@,
                merkle_root: parent_merkle_root@,
                committee: local_committee@,
                timestamp: parent_timestamp,
                base_layer_block_height: parent_base_layer_block_height,
                base_layer_block_hash: parent_base_layer_block_hash@,
            };
            &&& models(r@) == dummy_chain(ctx, r@.len())
            &&& high_qc.block_height < new_height ==> high_qc.block_height + r@.len() <= new_height
            &&& high_qc.block_height >= new_height ==> r@.len() == 0
            &&& high_qc.block_height < new_height ==> r@.len() > 0 && (
            high_qc.block_height + r@.len() == new_height || (stop_at is Some
                && stop_at->Some_0@ == r@.last().id@))
            &&& forall|i: int|
                0 <= i < r@.len() - 1 ==> !(stop_at is Some && stop_at->Some_0@ == (
                #[trigger] r@[i]).id@)
        }),
{
    let ghost ctx = DummyContext {
        network,
        epoch,
        shard,
        justify: high_qc@,
        merkle_root: parent_merkle_root@,
        committee: local_committee@,
        timestamp: parent_timestamp,
        base_layer_block_height: parent_base_layer_block_height,
        base_layer_block_hash: parent_base_layer_block_hash@,
    };
    let mut out: Vec<Block> = Vec::new();
    if high_qc.block_height >= new_height {
        assert(models(out@) =~= dummy_chain(ctx, 0));
        return out;
    }
    let mut parent_id = high_qc.block_id.clone();
    let mut current_height: u64 = high_qc.block_height + 1;
    let mut done = false;
    while !done
        invariant
            ctx == (DummyContext {
                network,
                epoch,
                shard,
                justify: high_qc@,
                merkle_root: parent_merkle_root@,
                committee: local_committee@,
                timestamp: parent_timestamp,
                base_layer_block_height: parent_base_layer_block_height,
                base_layer_block_hash: parent_base_layer_block_hash@,
            }),
            local_committee@.len() > 0,
            high_qc.block_height < new_height,
            models(out@) == dummy_chain(ctx, out@.len()),
            !done ==> current_height == high_qc.block_height + 1 + out@.len(),
            !done ==> current_height <= new_height,
            !done ==> parent_id@ == (if out@.len() == 0 {
                high_qc.block_id@
            } else {
                out@.last().id@
            }),
            !done ==> forall|i: int|
                0 <= i < out@.len() ==> !(stop_at is Some && stop_at->Some_0@ == (
                #[trigger] out@[i]).id@),
            done ==> out@.len() > 0 && high_qc.block_height + out@.len() <= new_height && (
            high_qc.block_height + out@.len() == new_height || (stop_at is Some
                && stop_at->Some_0@ == out@.last().id@)),
            done ==> forall|i: int|
                0 <= i < out@.len() - 1 ==> !(stop_at is Some && stop_at->Some_0@ == (
                #[trigger] out@[i]).id@),
        decreases new_height - high_qc.block_height - out@.len() + (if done { 0int } else { 1int }),
    {
        let leader = leader_strategy.get_leader_public_key(local_committee, current_height);
        let dummy = Block::dummy_block(
            network,
            parent_id,
            leader,
            current_height,
            high_qc.clone(),
            epoch,
            shard,
            parent_merkle_root.clone(),
            parent_timestamp,
            parent_base_layer_block_height,
            parent_base_layer_block_hash.clone(),
        );
        parent_id = dummy.id.clone();
        let hit = hits_stop(&dummy.id, stop_at);
        let ghost prev = out@;
        proof {
            lemma_dummy_chain_len(ctx, prev.len());
            let n = (prev.len() + 1) as nat;
            let parent = if n == 1 {
                ctx.justify.block_id
            } else {
                dummy_chain(ctx, prev.len()).last().id
            };
            if prev.len() > 0 {
                assert(models(prev).last() == prev.last()@);
                assert(models(prev)[prev.len() - 1] == prev[prev.len() - 1]@);
            }
            assert(parent == dummy@.parent_id);
            assert(dummy@ == expected_dummy(ctx, prev.len(), parent));
            assert(dummy_chain(ctx, n) == dummy_chain(ctx, prev.len()).push(
                expected_dummy(ctx, prev.len(), parent),
            ));
        }
        out.push(dummy);
        proof {
            assert(models(out@) =~= models(prev).push(out@.last()@));
        }
        if hit || current_height == new_height {
            done = true;
        } else {
            current_height = current_height + 1;
        }
    }
    out
}

/// The leaf for the last dummy block needed to reach `new_height` from the
/// certified height, or `None` when no dummy is needed.
pub fn calculate_last_dummy_block(
    network: u8,
    epoch: u64,
    shard: u32,
    high_qc: &QuorumCertificate,
    parent_merkle_root: Vec<u8>,
    new_height: u64,
    leader_strategy: &RoundRobinLeaderStrategy,
    local_committee: &Vec<Vec<u8>>,
    parent_timestamp: u64,
    parent_base_layer_block_height: u64,
    parent_base_layer_block_hash: Vec<u8>,
) -> (r: Option<LeafBlock>)
    requires
        high_qc.block_height < new_height ==> local_committee@.len() > 0,
    ensures
        high_qc.block_height >= new_height ==> r is None,
        high_qc.block_height < new_height ==> ({
            let ctx = DummyContext {
                network,
                epoch,
                shard,
                justify: high_qc@,
                merkle_root: parent_merkle_root@,
                committee: local_committee@,
                timestamp: parent_timestamp,
                base_layer_block_height: parent_base_layer_block_height,
                base_layer_block_hash: parent_base_layer_block_hash@,
            };
            let last = dummy_chain(ctx, (new_height - high_qc.block_height) as nat).last();
            &&& r is Some
            &&& r->Some_0.block_id@ == last.id
            &&& r->Some_0.height == last.height
            &&& r->Some_0.epoch == last.epoch
        }),
{
    let dummies = with_dummy_blocks(
        network,
        epoch,
        shard,
        high_qc,
        &parent_merkle_root,
        new_height,
        leader_strategy,
        local_committee,
        parent_timestamp,
        parent_base_layer_block_height,
        &parent_base_layer_block_hash,
        &None,
    );
    if dummies.len() == 0 {
        None
    } else {
        let last = &dummies[dummies.len() - 1];
        proof {
            assert(models(dummies@).last() == dummies@.last()@);
        }
        Some(last.as_leaf_block())
    }
}

/// The dummy blocks between the block that `candidate_block`'s certificate
/// justifies and `candidate_block` itself: they run from the certified height
/// up to the candidate's height, and stop early at the candidate's parent.
pub fn calculate_dummy_blocks(
    candidate_block: &Block,
    justify_block: &Block,
    leader_strategy: &RoundRobinLeaderStrategy,
    local_committee: &Vec<Vec<u8>>,
) -> (r: Vec<Block>)
    requires
        candidate_block.justify.block_height < candidate_block.height ==> local_committee@.len() > 0,
    ensures
        ({
            let ctx = DummyContext {
                network: candidate_block.network,
                epoch: justify_block.epoch,
                shard: justify_block.shard,
                justify: candidate_block.justify@,
                merkle_root: justify_block.state_merkle_root@,
                committee: local_committee@,
                timestamp: justify_block.timestamp,
                base_layer_block_height: justify_block.base_layer_block_height,
                base_layer_block_hash: justify_block.base_layer_block_hash@,
            };
            let qh = candidate_block.justify.block_height;
            &&& models(r@) == dummy_chain(ctx, r@.len())
            &&& qh >= candidate_block.height ==> r@.len() == 0
            &&& qh < candidate_block.height ==> r@.len() > 0 && qh + r@.len()
                <= candidate_block.height && (qh + r@.len() == candidate_block.height
                || r@.last().id@ == candidate_block.parent_id@)
            &&& forall|i: int|
                0 <= i < r@.len() - 1 ==> (#[trigger] r@[i]).id@ != candidate_block.parent_id@
        }),
{
    let stop = Some(candidate_block.parent_id.clone());
    with_dummy_blocks(
        candidate_block.network,
        justify_block.epoch,
        justify_block.shard,
        &candidate_block.justify,
        &justify_block.state_merkle_root,
        candidate_block.height,
        leader_strategy,
        local_committee,
        justify_block.timestamp,
        justify_block.base_layer_block_height,
        &justify_block.base_layer_block_hash,
        &stop,
    )
}

} // verus!
