use vstd::prelude::*;
use crate::block::{Block, LeafBlock, QuorumCertificate};
use crate::dummy::{
    calculate_dummy_blocks, calculate_last_dummy_block, dummy_chain, lemma_dummy_chain_len, lemma_dummy_chain_prefix,
    models, DummyContext,
};
use crate::hashing::bytes_eq;
use crate::leader::{leader_of, RoundRobinLeaderStrategy};
use crate::state_tree::{
    calculate_state_merkle_diff, sort_by_id, state_merkle_result, change_models, leaf_models, pending_models,
    tree_root, PendingStateTreeDiff, StateHashTreeDiff, StateTreeError, SubstateTreeChange, TreeStore,
};
use crate::store::{has_block, unique_ids, BlockStore, LastSentVote};

verus! {

/// Why a proposal is dropped without a vote.
#[derive(Debug, Clone, Copy, PartialEq, Eq)]
pub enum ProposalError {
    /// The block or its certificate is of another epoch.
    WrongEpoch,
    /// The certificate is not below the block.
    InvalidHeight,
    /// The block the certificate names is not held.
    UnknownJustify,
    /// The block is held already.
    DuplicateBlock,
    /// The block's parent is neither the certified block nor a dummy block
    /// after it.
    ParentChainNotClosed,
    /// The state changes could not be applied.
    StateTree(StateTreeError),
    /// The block's state root is not the one its changes lead to.
    StateRootMismatch,
}

/// What accepting a proposal produced: the vote to send, the block committed
/// by the three-chain it completed, if any, and the state-tree diff to keep
/// with the block.
#[derive(Debug)]
pub struct ProposalOutcome {
    pub vote: LastSentVote,
    pub committed: Option<Vec<u8>>,
    pub tree_diff: StateHashTreeDiff,
}

/// The dummy blocks that fill the heights between the block `justify` names
/// (which is `justify_block`) and `block`.
pub open spec fn dummy_context(block: Block, justify_block: Block, committee: Seq<Vec<u8>>) -> DummyContext {
    DummyContext {
        network: block.network,
        epoch: justify_block.epoch,
        shard: justify_block.shard,
        justify: block.justify@,
        merkle_root: justify_block.state_merkle_root@,
        committee,
        timestamp: justify_block.timestamp,
        base_layer_block_height: justify_block.base_layer_block_height,
        base_layer_block_hash: justify_block.base_layer_block_hash@,
    }
}

/// The block's parent closes the chain from its certificate: it is the
/// certified block, or one of the dummy blocks below the block's height.
pub open spec fn parent_chain_closes(block: Block, ctx: DummyContext) -> bool {
    ||| block.parent_id@ == block.justify.block_id@
    ||| exists|n: nat|
        0 < n && block.justify.block_height + n <= block.height && (#[trigger] dummy_chain(ctx, n)).last().id
            == block.parent_id@
}

/// The root the block's changes lead to, when they apply.
pub open spec fn expected_root(
    tree: TreeStore,
    current_version: u64,
    next_version: u64,
    pending: Seq<PendingStateTreeDiff>,
    changes: Seq<SubstateTreeChange>,
) -> Option<Seq<u8>> {
    match state_merkle_result(leaf_models(tree.leaves@), current_version, next_version, pending_models(pending), change_models(changes)) {
        Ok((root, _)) => Some(root),
        Err(_) => None,
    }
}

/// Handles a proposal: checks its epoch and certificate, fills any
/// leader-failed heights below it with dummy blocks that must close on its
/// parent, applies its state changes and checks the root it carries. An
/// accepted block becomes the leaf, is voted for, and its certificate is run
/// through the commit rule. A dropped proposal leaves the store as it was.
pub fn on_receive_proposal(
    store: &mut BlockStore,
    local_epoch: u64,
    leader_strategy: &RoundRobinLeaderStrategy,
    local_committee: &Vec<Vec<u8>>,
    tree: &TreeStore,
    current_version: u64,
    next_version: u64,
    pending_tree_diffs: Vec<PendingStateTreeDiff>,
    substate_changes: Vec<SubstateTreeChange>,
    block: Block,
) -> (r: Result<ProposalOutcome, ProposalError>)
    requires
        old(store).wf(),
        tree.wf(),
        local_committee@.len() > 0,
    ensures
        final(store).wf(),
        (block.epoch != local_epoch || block.justify.epoch != local_epoch) ==> r == Err::<ProposalOutcome, _>(
            ProposalError::WrongEpoch,
        ),
        (block.epoch == local_epoch && block.justify.epoch == local_epoch && block.justify.block_height
            >= block.height) ==> r == Err::<ProposalOutcome, _>(ProposalError::InvalidHeight),
        r is Err ==> final(store).blocks_spec() == old(store).blocks_spec() && final(store).leaf_block
            == old(store).leaf_block && final(store).last_sent_vote == old(store).last_sent_vote,
        r == Err::<ProposalOutcome, _>(ProposalError::UnknownJustify) <==> (block.epoch == local_epoch
            && block.justify.epoch == local_epoch && block.justify.block_height < block.height
            && !has_block(old(store).blocks_spec(), block.justify.block_id@)),
        r is Ok <==> ({
            &&& block.epoch == local_epoch
            &&& block.justify.epoch == local_epoch
            &&& block.justify.block_height < block.height
            &&& !has_block(old(store).blocks_spec(), block.id@)
            &&& exists|j: int|
                0 <= j < old(store).blocks_spec().len() && #[trigger] old(store).blocks_spec()[j].id
                    == block.justify.block_id@ && parent_chain_closes(
                    block,
                    dummy_context(block, old(store).blocks@[j], local_committee@),
                )
            &&& expected_root(*tree, current_version, next_version, pending_tree_diffs@, substate_changes@)
                == Some(block.state_merkle_root@)
        }),
        r is Ok ==> ({
            let o = r->Ok_0;
            &&& block.epoch == local_epoch
            &&& block.justify.epoch == local_epoch
            &&& block.justify.block_height < block.height
            &&& !has_block(old(store).blocks_spec(), block.id@)
            &&& exists|j: int|
                0 <= j < old(store).blocks_spec().len() && #[trigger] old(store).blocks_spec()[j].id
                    == block.justify.block_id@ && parent_chain_closes(
                    block,
                    dummy_context(block, old(store).blocks@[j], local_committee@),
                )
            &&& expected_root(*tree, current_version, next_version, pending_tree_diffs@, substate_changes@)
                == Some(block.state_merkle_root@)
            &&& has_block(final(store).blocks_spec(), block.id@)
            &&& final(store).leaf_block.block_id@ == block.id@
            &&& final(store).leaf_block.height == block.height
            &&& final(store).leaf_block.epoch == block.epoch
            &&& o.vote.block_id@ == block.id@
            &&& o.vote.block_height == block.height
            &&& o.vote.epoch == block.epoch
            &&& o.vote.decision
            &&& final(store).last_sent_vote is Some
            &&& final(store).last_sent_vote->Some_0.model() == o.vote.model()
            &&& o.tree_diff.version == next_version
            &&& change_models(o.tree_diff.changes@) == sort_by_id(change_models(substate_changes@))
        }),
{
    if block.epoch != local_epoch || block.justify.epoch != local_epoch {
        return Err(ProposalError::WrongEpoch);
    }
    if block.justify.block_height >= block.height {
        return Err(ProposalError::InvalidHeight);
    }
    let justify_block = match store.get(&block.justify.block_id) {
        Some(b) => b,
        None => {
            return Err(ProposalError::UnknownJustify);
        },
    };
    if store.get(&block.id).is_some() {
        return Err(ProposalError::DuplicateBlock);
    }
    let ghost j = choose|j: int| 0 <= j < old(store).blocks_spec().len() && old(store).blocks_spec()[j] == justify_block@;
    let ghost ctx = dummy_context(block, justify_block, local_committee@);
    proof {
        assert(old(store).blocks_spec()[j] == old(store).blocks@[j]@);
        assert(dummy_context(block, old(store).blocks@[j], local_committee@) == ctx);
    }
    let dummies: Vec<Block> = if bytes_eq(&block.parent_id, &block.justify.block_id) {
        Vec::new()
    } else {
        let d = calculate_dummy_blocks(&block, &justify_block, leader_strategy, local_committee);
        if d.len() == 0 || !bytes_eq(&d[d.len() - 1].id, &block.parent_id) {
            proof {
                let len = d@.len() as nat;
                lemma_dummy_chain_len(ctx, len);
                assert forall|n: nat|
                    0 < n && block.justify.block_height + n <= block.height implies (#[trigger] dummy_chain(
                    ctx,
                    n,
                )).last().id != block.parent_id@ by {
                    lemma_dummy_chain_prefix(ctx, n, len);
                    lemma_dummy_chain_len(ctx, n);
                    assert(dummy_chain(ctx, n).last() == dummy_chain(ctx, len)[n - 1]);
                    assert(models(d@)[n - 1] == d@[n - 1]@);
                }
                assert forall|jj: int|
                    0 <= jj < old(store).blocks_spec().len() && #[trigger] old(store).blocks_spec()[jj].id
                        == block.justify.block_id@ implies !parent_chain_closes(
                    block,
                    dummy_context(block, old(store).blocks@[jj], local_committee@),
                ) by {
                    assert(unique_ids(old(store).blocks_spec()));
                    if jj != j {
                        assert(old(store).blocks_spec()[jj].id == old(store).blocks_spec()[j].id);
                    }
                }
            }
            return Err(ProposalError::ParentChainNotClosed);
        }
        proof {
            let n = d@.len() as nat;
            lemma_dummy_chain_len(ctx, n);
            assert(models(d@)[n - 1] == d@[n - 1]@);
            assert(dummy_chain(ctx, n).last().id == block.parent_id@);
        }
        d
    };
    let (root, tree_diff) = match calculate_state_merkle_diff(
        tree,
        current_version,
        next_version,
        pending_tree_diffs,
        substate_changes,
    ) {
        Ok(rd) => rd,
        Err(e) => {
            return Err(ProposalError::StateTree(e));
        },
    };
    if !bytes_eq(&root, &block.state_merkle_root) {
        return Err(ProposalError::StateRootMismatch);
    }
    let ghost before = store.blocks_spec();
    let mut i: usize = 0;
    while i < dummies.len()
        invariant
            0 <= i <= dummies@.len(),
            store.wf(),
            has_block(store.blocks_spec(), block.id@) ==> has_block(before, block.id@),
            !has_block(before, block.id@),
        decreases dummies@.len() - i,
    {
        let ghost prior = store.blocks_spec();
        if !bytes_eq(&dummies[i].id, &block.id) {
            let _ = store.insert(dummies[i].clone());
        }
        proof {
            if has_block(store.blocks_spec(), block.id@) && !has_block(prior, block.id@) {
                let k = choose|k: int| 0 <= k < store.blocks_spec().len() && store.blocks_spec()[k].id == block.id@;
                let p = choose|p: int| 0 <= p <= prior.len() && store.blocks_spec() == prior.insert(p, dummies@[i as int]@);
                if k != p {
                    assert(prior.contains(store.blocks_spec()[k]));
                }
            }
        }
        i = i + 1;
    }
    let vote = LastSentVote {
        epoch: block.epoch,
        block_id: block.id.clone(),
        block_height: block.height,
        decision: true,
        signature: Vec::new(),
    };
    store.leaf_block = block.as_leaf_block();
    store.last_sent_vote = Some(vote.clone());
    let justify = block.justify.clone();
    let ghost block_id = block.id@;
    let ghost bm = block@;
    let ghost prior = store.blocks_spec();
    let inserted = store.insert(block);
    proof {
        let p = choose|p: int| 0 <= p <= prior.len() && store.blocks_spec() == prior.insert(p, bm);
        assert(store.blocks_spec()[p].id == block_id);
    }
    let ghost with_block = store.blocks_spec();
    let committed = store.commit_on_qc(&justify);
    proof {
        let k = choose|k: int| 0 <= k < with_block.len() && with_block[k].id == block_id;
        if committed is Some {
            let (b, p, g) = choose|b: int, p: int, g: int| {
                &&& #[trigger] crate::store::three_chain(with_block, justify.block_id@, b, p, g)
                &&& store.blocks_spec() == with_block.update(
                    g,
                    crate::block::BlockModel { is_committed: true, ..with_block[g] },
                )
            };
            assert(store.blocks_spec()[k].id == block_id);
        } else {
            assert(store.blocks_spec()[k].id == block_id);
        }
    }
    Ok(ProposalOutcome { vote, committed, tree_diff })
}

/// What a node does when its view timer fires.
#[derive(Debug)]
pub struct ViewChange {
    /// The height of the next view.
    pub new_height: u64,
    /// Whether this node leads the next view.
    pub is_leader: bool,
    /// Where this node leads: the block its proposal builds on.
    pub parent: Option<LeafBlock>,
}

/// Advances the view past a leader failure at `current_height`. Where this
/// node leads the next height, its proposal builds on the certified block if
/// that is just below, else on the last of the dummy blocks that fill the
/// heights in between (built over the certified block `justify_block`).
pub fn on_leader_timeout(
    local_key: &Vec<u8>,
    local_committee: &Vec<Vec<u8>>,
    leader_strategy: &RoundRobinLeaderStrategy,
    current_height: u64,
    high_qc: &QuorumCertificate,
    justify_block: &Block,
) -> (r: ViewChange)
    requires
        local_committee@.len() > 0,
        high_qc.block_height <= current_height < u64::MAX,
    ensures
        r.new_height == current_height + 1,
        r.is_leader == (leader_of(local_committee@, r.new_height) == local_key@),
        !r.is_leader ==> r.parent is None,
        r.is_leader && high_qc.block_height == current_height ==> r.parent is Some
            && r.parent->Some_0.block_id@ == high_qc.block_id@ && r.parent->Some_0.height
            == high_qc.block_height,
        r.is_leader && high_qc.block_height < current_height ==> ({
            let ctx = DummyContext {
                network: justify_block.network,
                epoch: justify_block.epoch,
                shard: justify_block.shard,
                justify: high_qc@,
                merkle_root: justify_block.state_merkle_root@,
                committee: local_committee@,
                timestamp: justify_block.timestamp,
                base_layer_block_height: justify_block.base_layer_block_height,
                base_layer_block_hash: justify_block.base_layer_block_hash@,
            };
            let last = dummy_chain(ctx, (current_height - high_qc.block_height) as nat).last();
            &&& r.parent is Some
            &&& r.parent->Some_0.block_id@ == last.id
            &&& r.parent->Some_0.height == last.height
        }),
{
    let new_height = current_height + 1;
    let leader = leader_strategy.get_leader_public_key(local_committee, new_height);
    let is_leader = bytes_eq(&leader, local_key);
    if !is_leader {
        return ViewChange { new_height, is_leader, parent: None };
    }
    let parent = if high_qc.block_height == current_height {
        Some(high_qc.as_leaf_block())
    } else {
        calculate_last_dummy_block(
            justify_block.network,
            justify_block.epoch,
            justify_block.shard,
            high_qc,
            justify_block.state_merkle_root.clone(),
            current_height,
            leader_strategy,
            local_committee,
            justify_block.timestamp,
            justify_block.base_layer_block_height,
            justify_block.base_layer_block_hash.clone(),
        )
    };
    ViewChange { new_height, is_leader, parent }
}

} // verus!
