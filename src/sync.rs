use vstd::prelude::*;
use crate::block::{Block, BlockModel, LeafBlock, QuorumCertificate};
use crate::dummy::models;
use crate::store::{
    blocks_between, byte_views, lemma_selection_sorted, lemma_selection_strict, proposals_for, sorted_by_height,
    strictly_by_height, BlockStore, LastSentVote,
};

verus! {

/// The most blocks one catch-up response carries.
pub const SYNC_BLOCK_LIMIT: usize = 1000;

/// A peer's request to catch up from its highest certificate.
#[derive(Debug)]
pub struct SyncRequestMessage {
    pub high_qc: QuorumCertificate,
}

/// A block sent with the foreign proposals carried alongside it.
#[derive(Debug)]
pub struct ProposalMessage {
    pub block: Block,
    pub foreign_proposals: Vec<Vec<u8>>,
}

/// The messages a catch-up response is made of.
#[derive(Debug)]
pub enum HotstuffMessage {
    Proposal(ProposalMessage),
    Vote(LastSentVote),
}

/// Why a catch-up request gets no response.
#[derive(Debug, Clone, Copy, PartialEq, Eq)]
pub enum SyncRequestError {
    /// The request's certificate is of another epoch.
    EpochMismatch,
    /// The peer's certificate is above this node's tip.
    PeerAhead,
}

/// The height and epoch of the tip a response is served from: the last
/// proposal where it is higher than the leaf block, else the leaf block.
pub open spec fn sync_tip(store: BlockStore) -> (u64, u64) {
    match store.last_proposed {
        Some(lp) => if lp.height > store.leaf_block.height {
            (lp.height, lp.epoch)
        } else {
            (store.leaf_block.height, store.leaf_block.epoch)
        },
        None => (store.leaf_block.height, store.leaf_block.epoch),
    }
}

/// The blocks a response carries: those above the peer's certificate up to
/// and including the tip, at most [`SYNC_BLOCK_LIMIT`] of them.
pub open spec fn sync_blocks(store: BlockStore, shard: u32, qc_height: u64) -> Seq<BlockModel> {
    let (tip_height, tip_epoch) = sync_tip(store);
    if tip_height == 0 || qc_height >= tip_height {
        Seq::empty()
    } else {
        let all = blocks_between(store.blocks_spec(), tip_epoch, shard, (qc_height + 1) as u64, tip_height, true);
        all.take(if all.len() < SYNC_BLOCK_LIMIT { all.len() as int } else { SYNC_BLOCK_LIMIT as int })
    }
}

/// A catch-up response carries blocks above the peer's certificate and up to
/// the tip, never the genesis block, in ascending height, and no more than the
/// limit.
pub proof fn lemma_sync_blocks_in_order(store: BlockStore, shard: u32, qc_height: u64)
    requires
        store.wf(),
    ensures
        sorted_by_height(sync_blocks(store, shard, qc_height)),
        sync_blocks(store, shard, qc_height).len() <= SYNC_BLOCK_LIMIT,
        forall|i: int|
            0 <= i < sync_blocks(store, shard, qc_height).len() ==> {
                let b = #[trigger] sync_blocks(store, shard, qc_height)[i];
                &&& qc_height < b.height <= sync_tip(store).0
                &&& b.height != 0
                &&& b.epoch == sync_tip(store).1
                &&& b.shard == shard
            },
{
    let (tip_height, tip_epoch) = sync_tip(store);
    if !(tip_height == 0 || qc_height >= tip_height) {
        let all = blocks_between(store.blocks_spec(), tip_epoch, shard, (qc_height + 1) as u64, tip_height, true);
        lemma_selection_sorted(store.blocks_spec(), tip_epoch, shard, (qc_height + 1) as u64, tip_height, true);
        let r = sync_blocks(store, shard, qc_height);
        assert forall|i: int| 0 <= i < r.len() implies r[i] == all[i] by {}
    }
}

/// Where the store holds at most one block per height, the response's
/// heights rise strictly.
pub proof fn lemma_sync_blocks_strictly_ascending(store: BlockStore, shard: u32, qc_height: u64)
    requires
        store.wf(),
        strictly_by_height(store.blocks_spec()),
    ensures
        strictly_by_height(sync_blocks(store, shard, qc_height)),
{
    let (tip_height, tip_epoch) = sync_tip(store);
    if !(tip_height == 0 || qc_height >= tip_height) {
        let all = blocks_between(store.blocks_spec(), tip_epoch, shard, (qc_height + 1) as u64, tip_height, true);
        lemma_selection_strict(store.blocks_spec(), tip_epoch, shard, (qc_height + 1) as u64, tip_height, true);
        let r = sync_blocks(store, shard, qc_height);
        assert forall|i: int| 0 <= i < r.len() implies r[i] == all[i] by {}
    }
}

/// `m` sends block `b` with the proposals the store records for it.
pub open spec fn is_proposal_of(m: HotstuffMessage, store: BlockStore, b: BlockModel) -> bool {
    match m {
        HotstuffMessage::Proposal(p) => p.block@ == b && byte_views(p.foreign_proposals@)
            == proposals_for(store.foreign_spec(), b.id),
        HotstuffMessage::Vote(_) => false,
    }
}

/// `m` replays vote `v`.
pub open spec fn is_vote_of(m: HotstuffMessage, v: LastSentVote) -> bool {
    match m {
        HotstuffMessage::Vote(w) => w.model() == v.model(),
        HotstuffMessage::Proposal(_) => false,
    }
}

/// Answers peers' catch-up requests from a node's block store.
#[derive(Debug)]
pub struct OnSyncRequest {
    pub store: BlockStore,
}

impl OnSyncRequest {
    pub fn new(store: BlockStore) -> (r: Self)
        ensures
            r.store == store,
    {
        OnSyncRequest { store }
    }

    /// The messages that answer `msg`, in the order they are to be sent: the
    /// blocks above the peer's certificate by ascending height, each with its
    /// foreign proposals, then the last vote this node sent, if any. A node
    /// still at height zero answers with nothing. A request of another epoch,
    /// or one whose certificate is above this node's tip, is refused. The block
    /// the peer's certificate names is not sent again: the blocks start one
    /// height above it.
    pub fn handle(&self, local_shard: u32, epoch: u64, msg: &SyncRequestMessage) -> (r: Result<
        Vec<HotstuffMessage>,
        SyncRequestError,
    >)
        requires
            self.store.wf(),
        ensures
            msg.high_qc.epoch != epoch ==> r == Err::<Vec<HotstuffMessage>, _>(SyncRequestError::EpochMismatch),
            msg.high_qc.epoch == epoch && sync_tip(self.store).0 != 0 && sync_tip(self.store).0
                < msg.high_qc.block_height ==> r == Err::<Vec<HotstuffMessage>, _>(SyncRequestError::PeerAhead),
            r is Ok <==> msg.high_qc.epoch == epoch && (sync_tip(self.store).0 == 0
                || msg.high_qc.block_height <= sync_tip(self.store).0),
            r is Ok && sync_tip(self.store).0 == 0 ==> r->Ok_0@.len() == 0,
            r is Ok && sync_tip(self.store).0 != 0 ==> ({
                let msgs = r->Ok_0@;
                let blocks = sync_blocks(self.store, local_shard, msg.high_qc.block_height);
                let n = blocks.len();
                &&& msgs.len() == n + (if self.store.last_sent_vote is Some { 1int } else { 0int })
                &&& forall|i: int| 0 <= i < n ==> is_proposal_of(#[trigger] msgs[i], self.store, blocks[i])
                &&& self.store.last_sent_vote is Some ==> is_vote_of(
                    msgs[n as int],
                    self.store.last_sent_vote->Some_0,
                )
            }),
    {
        if msg.high_qc.epoch != epoch {
            return Err(SyncRequestError::EpochMismatch);
        }
        let store = &self.store;
        let mut tip: LeafBlock = store.leaf_block.clone();
        match &store.last_proposed {
            Some(lp) => {
                if lp.height > tip.height {
                    tip = lp.as_leaf_block();
                }
            },
            None => {},
        }
        let qc_height = msg.high_qc.block_height;
        if tip.height == 0 {
            return Ok(Vec::new());
        }
        let blocks: Vec<Block> = if qc_height == tip.height {
            Vec::new()
        } else if tip.height < qc_height {
            return Err(SyncRequestError::PeerAhead);
        } else {
            store.get_all_blocks_between(tip.epoch, local_shard, qc_height + 1, tip.height, true, SYNC_BLOCK_LIMIT)
        };
        assert(models(blocks@) == sync_blocks(self.store, local_shard, qc_height));
        let mut out: Vec<HotstuffMessage> = Vec::new();
        let mut i: usize = 0;
        while i < blocks.len()
            invariant
                0 <= i <= blocks@.len(),
                out@.len() == i,
                forall|j: int| 0 <= j < i ==> is_proposal_of(#[trigger] out@[j], self.store, blocks@[j]@),
            decreases blocks@.len() - i,
        {
            let block = blocks[i].clone();
            let foreign_proposals = self.store.get_foreign_proposals(&block.id);
            let m = HotstuffMessage::Proposal(ProposalMessage { block, foreign_proposals });
            assert(is_proposal_of(m, self.store, blocks@[i as int]@));
            out.push(m);
            i = i + 1;
        }
        match &store.last_sent_vote {
            Some(v) => {
                out.push(HotstuffMessage::Vote(v.clone()));
            },
            None => {},
        }
        proof {
            assert forall|j: int| 0 <= j < blocks@.len() implies is_proposal_of(
                #[trigger] out@[j],
                self.store,
                sync_blocks(self.store, local_shard, qc_height)[j],
            ) by {
                assert(models(blocks@)[j] == blocks@[j]@);
            }
        }
        Ok(out)
    }
}

impl Clone for LeafBlock {
    fn clone(&self) -> (r: Self)
        ensures
            r.block_id@ == self.block_id@,
            r.height == self.height,
            r.epoch == self.epoch,
    {
        LeafBlock { block_id: self.block_id.clone(), height: self.height, epoch: self.epoch }
    }
}

} // verus!
