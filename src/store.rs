use vstd::prelude::*;
use crate::block::{Block, BlockModel, LeafBlock, QuorumCertificate};
use crate::dummy::models;
use crate::hashing::bytes_eq;

verus! {

/// Whether block `b` belongs in a query over `epoch`, `shard` and the height
/// range from `lo` to `hi`, both ends included when `inclusive` is set and
/// both left out when it is not.
pub open spec fn in_range(b: BlockModel, epoch: u64, shard: u32, lo: u64, hi: u64, inclusive: bool) -> bool {
    &&& b.epoch == epoch
    &&& b.shard == shard
    &&& if inclusive {
        lo <= b.height <= hi
    } else {
        lo < b.height < hi
    }
}

/// The blocks of `s` that are in range, in the order of `s`.
pub open spec fn blocks_between(
    s: Seq<BlockModel>,
    epoch: u64,
    shard: u32,
    lo: u64,
    hi: u64,
    inclusive: bool,
) -> Seq<BlockModel>
    decreases s.len(),
{
    if s.len() == 0 {
        Seq::empty()
    } else {
        let p = blocks_between(s.drop_last(), epoch, shard, lo, hi, inclusive);
        if in_range(s.last(), epoch, shard, lo, hi, inclusive) {
            p.push(s.last())
        } else {
            p
        }
    }
}

/// The selection of a prefix is a prefix of the selection of the whole.
pub proof fn lemma_blocks_between_prefix(
    s: Seq<BlockModel>,
    i: int,
    epoch: u64,
    shard: u32,
    lo: u64,
    hi: u64,
    inclusive: bool,
)
    requires
        0 <= i <= s.len(),
    ensures
        blocks_between(s.take(i), epoch, shard, lo, hi, inclusive).len() <= blocks_between(
            s,
            epoch,
            shard,
            lo,
            hi,
            inclusive,
        ).len(),
        blocks_between(s.take(i), epoch, shard, lo, hi, inclusive) == blocks_between(
            s,
            epoch,
            shard,
            lo,
            hi,
            inclusive,
        ).take(blocks_between(s.take(i), epoch, shard, lo, hi, inclusive).len() as int),
    decreases s.len(),
{
    let whole = blocks_between(s, epoch, shard, lo, hi, inclusive);
    if i == s.len() {
        assert(s.take(i) =~= s);
        assert(whole.take(whole.len() as int) =~= whole);
    } else {
        lemma_blocks_between_prefix(s.drop_last(), i, epoch, shard, lo, hi, inclusive);
        assert(s.drop_last().take(i) =~= s.take(i));
        let part = blocks_between(s.take(i), epoch, shard, lo, hi, inclusive);
        let mid = blocks_between(s.drop_last(), epoch, shard, lo, hi, inclusive);
        if in_range(s.last(), epoch, shard, lo, hi, inclusive) {
            assert(whole == mid.push(s.last()));
            assert(whole.take(part.len() as int) =~= mid.take(part.len() as int));
        } else {
            assert(whole == mid);
        }
    }
}

/// A query whose two ends are one height returns, when the ends are
/// included, exactly the blocks of that epoch, shard and height, and nothing
/// when they are left out.
pub proof fn lemma_single_height_query(s: Seq<BlockModel>, epoch: u64, shard: u32, h: u64)
    ensures
        blocks_between(s, epoch, shard, h, h, false).len() == 0,
        forall|i: int|
            0 <= i < blocks_between(s, epoch, shard, h, h, true).len() ==> {
                let b = #[trigger] blocks_between(s, epoch, shard, h, h, true)[i];
                b.height == h && b.epoch == epoch && b.shard == shard
            },
        forall|j: int|
            0 <= j < s.len() && (#[trigger] s[j]).height == h && s[j].epoch == epoch && s[j].shard
                == shard ==> blocks_between(s, epoch, shard, h, h, true).contains(s[j]),
    decreases s.len(),
{
    if s.len() > 0 {
        let d = s.drop_last();
        lemma_single_height_query(d, epoch, shard, h);
        let p = blocks_between(d, epoch, shard, h, h, true);
        let q = blocks_between(s, epoch, shard, h, h, true);
        assert forall|j: int|
            0 <= j < s.len() && (#[trigger] s[j]).height == h && s[j].epoch == epoch && s[j].shard
                == shard implies q.contains(s[j]) by {
            if j < s.len() - 1 {
                assert(d[j] == s[j]);
                assert(p.contains(d[j]));
                let k = choose|k: int| 0 <= k < p.len() && p[k] == d[j];
                assert(q[k] == p[k]);
            } else {
                assert(q[q.len() - 1] == s.last());
            }
        }
    }
}

/// Blocks sorted by height, lowest first.
pub open spec fn sorted_by_height(s: Seq<BlockModel>) -> bool {
    forall|i: int, j: int| 0 <= i < j < s.len() ==> s[i].height <= s[j].height
}

/// No two blocks share an id.
pub open spec fn unique_ids(s: Seq<BlockModel>) -> bool {
    forall|i: int, j: int| 0 <= i < j < s.len() ==> s[i].id != s[j].id
}

pub open spec fn has_block(s: Seq<BlockModel>, id: Seq<u8>) -> bool {
    exists|i: int| 0 <= i < s.len() && s[i].id == id
}

/// The three-chain that certifying `qc_block` completes: `b` is the certified
/// block, `p` the block that `b`'s certificate names, and `g` the block that
/// `p`'s certificate names.
pub open spec fn three_chain(s: Seq<BlockModel>, qc_block: Seq<u8>, b: int, p: int, g: int) -> bool {
    &&& 0 <= b < s.len()
    &&& 0 <= p < s.len()
    &&& 0 <= g < s.len()
    &&& s[b].id == qc_block
    &&& s[p].id == s[b].justify.block_id
    &&& s[g].id == s[p].justify.block_id
}

/// What a node records of the last block it proposed.
#[derive(Debug)]
pub struct LastProposed {
    pub block_id: Vec<u8>,
    pub height: u64,
    pub epoch: u64,
}

impl LastProposed {
    pub fn as_leaf_block(&self) -> (r: LeafBlock)
        ensures
            r.block_id@ == self.block_id@,
            r.height == self.height,
            r.epoch == self.epoch,
    {
        LeafBlock { block_id: self.block_id.clone(), height: self.height, epoch: self.epoch }
    }
}

/// The last vote a node sent, kept so a catch-up response can replay it.
#[derive(Debug)]
pub struct LastSentVote {
    pub epoch: u64,
    pub block_id: Vec<u8>,
    pub block_height: u64,
    pub decision: bool,
    pub signature: Vec<u8>,
}

impl LastSentVote {
    pub open spec fn model(&self) -> (u64, Seq<u8>, u64, bool, Seq<u8>) {
        (self.epoch, self.block_id@, self.block_height, self.decision, self.signature@)
    }
}

impl Clone for LastSentVote {
    fn clone(&self) -> (r: Self)
        ensures
            r.model() == self.model(),
    {
        LastSentVote {
            epoch: self.epoch,
            block_id: self.block_id.clone(),
            block_height: self.block_height,
            decision: self.decision,
            signature: self.signature.clone(),
        }
    }
}

/// A foreign proposal stored alongside the local block it was carried with.
#[derive(Debug)]
pub struct ForeignProposalRecord {
    pub block_id: Vec<u8>,
    pub proposal: Vec<u8>,
}

/// The proposals recorded for `id`, in the order they were recorded.
pub open spec fn proposals_for(s: Seq<ForeignProposalRecord>, id: Seq<u8>) -> Seq<Seq<u8>>
    decreases s.len(),
{
    if s.len() == 0 {
        Seq::empty()
    } else {
        let p = proposals_for(s.drop_last(), id);
        if s.last().block_id@ == id {
            p.push(s.last().proposal@)
        } else {
            p
        }
    }
}

pub open spec fn byte_views(v: Seq<Vec<u8>>) -> Seq<Seq<u8>> {
    v.map_values(|b: Vec<u8>| b@)
}

/// The block tree of one node: its blocks by ascending height, the foreign
/// proposals carried with them, and the singleton records of its tip, its last
/// proposal and its last vote.
#[derive(Debug)]
pub struct BlockStore {
    pub blocks: Vec<Block>,
    pub foreign_proposals: Vec<ForeignProposalRecord>,
    pub leaf_block: LeafBlock,
    pub last_proposed: Option<LastProposed>,
    pub last_sent_vote: Option<LastSentVote>,
}

impl BlockStore {
    pub open spec fn blocks_spec(&self) -> Seq<BlockModel> {
        models(self.blocks@)
    }

    pub open spec fn foreign_spec(&self) -> Seq<ForeignProposalRecord> {
        self.foreign_proposals@
    }

    pub open spec fn wf(&self) -> bool {
        &&& sorted_by_height(self.blocks_spec())
        &&& unique_ids(self.blocks_spec())
    }

    /// A store holding only the genesis block, with genesis as its tip.
    pub fn new(genesis: Block) -> (r: Self)
        ensures
            r.wf(),
            r.blocks_spec() == seq![genesis@],
            r.leaf_block.block_id@ == genesis.id@,
            r.leaf_block.height == genesis.height,
            r.leaf_block.epoch == genesis.epoch,
            r.last_proposed is None,
            r.last_sent_vote is None,
            r.foreign_spec().len() == 0,
    {
        let leaf_block = genesis.as_leaf_block();
        let mut blocks: Vec<Block> = Vec::new();
        blocks.push(genesis);
        let r = BlockStore {
            blocks,
            foreign_proposals: Vec::new(),
            leaf_block,
            last_proposed: None,
            last_sent_vote: None,
        };
        assert(r.blocks_spec() =~= seq![genesis@]);
        r
    }

    /// Whether the blocks are in height order with no id held twice.
    pub fn is_well_formed(&self) -> (r: bool)
        ensures
            r == self.wf(),
    {
        let ghost s = self.blocks_spec();
        let n = self.blocks.len();
        let mut i: usize = 0;
        while i < n
            invariant
                0 <= i <= n,
                n == self.blocks@.len(),
                s == self.blocks_spec(),
                sorted_by_height(s.take(i as int)),
                unique_ids(s.take(i as int)),
            decreases n - i,
        {
            if i > 0 && self.blocks[i - 1].height > self.blocks[i].height {
                assert(!sorted_by_height(s)) by {
                    assert(s[i - 1].height > s[i as int].height);
                }
                return false;
            }
            let mut j: usize = 0;
            while j < i
                invariant
                    0 <= j <= i < n,
                    n == self.blocks@.len(),
                    s == self.blocks_spec(),
                    forall|k: int| 0 <= k < j ==> s[k].id != s[i as int].id,
                decreases i - j,
            {
                if bytes_eq(&self.blocks[j].id, &self.blocks[i].id) {
                    assert(!unique_ids(s)) by {
                        assert(s[j as int].id == s[i as int].id);
                    }
                    return false;
                }
                j = j + 1;
            }
            proof {
                let t = s.take(i + 1);
                assert forall|a: int, b: int| 0 <= a < b < t.len() implies t[a].height <= t[b].height by {
                    if b < i {
                        assert(s.take(i as int)[a] == t[a]);
                        assert(s.take(i as int)[b] == t[b]);
                    } else if a < i - 1 {
                        assert(s.take(i as int)[a] == t[a]);
                        assert(s.take(i as int)[i - 1] == s[i - 1]);
                    }
                }
                assert forall|a: int, b: int| 0 <= a < b < t.len() implies t[a].id != t[b].id by {
                    if b < i {
                        assert(s.take(i as int)[a] == t[a]);
                        assert(s.take(i as int)[b] == t[b]);
                    }
                }
            }
            i = i + 1;
        }
        assert(s.take(n as int) =~= s);
        true
    }

    /// Number of blocks held.
    pub fn len(&self) -> (r: usize)
        ensures
            r == self.blocks_spec().len(),
    {
        self.blocks.len()
    }

    /// The position of the block with id `id`, if the store holds one.
    fn position(&self, id: &Vec<u8>) -> (r: Option<usize>)
        ensures
            r is Some ==> r->Some_0 < self.blocks_spec().len() && self.blocks_spec()[r->Some_0 as int].id
                == id@,
            r is None ==> !has_block(self.blocks_spec(), id@),
    {
        let mut i: usize = 0;
        while i < self.blocks.len()
            invariant
                0 <= i <= self.blocks@.len(),
                forall|j: int| 0 <= j < i ==> self.blocks_spec()[j].id != id@,
        decreases self.blocks@.len() - i,
        {
            if bytes_eq(&self.blocks[i].id, id) {
                return Some(i);
            }
            i = i + 1;
        }
        None
    }

    /// The block with id `id`, if the store holds one.
    pub fn get(&self, id: &Vec<u8>) -> (r: Option<Block>)
        ensures
            r is Some ==> r->Some_0@.id == id@ && self.blocks_spec().contains(r->Some_0@),
            r is None ==> !has_block(self.blocks_spec(), id@),
    {
        match self.position(id) {
            Some(i) => {
                let b = self.blocks[i].clone();
                assert(self.blocks_spec()[i as int] == b@);
                Some(b)
            },
            None => None,
        }
    }

    /// Inserts `block` after every block of the same or a lower height. A
    /// block whose id is already held is refused and `false` returned.
    pub fn insert(&mut self, block: Block) -> (r: bool)
        requires
            old(self).wf(),
        ensures
            final(self).wf(),
            r == !has_block(old(self).blocks_spec(), block@.id),
            r ==> exists|k: int|
                0 <= k <= old(self).blocks_spec().len() && final(self).blocks_spec() == old(
                    self,
                ).blocks_spec().insert(k, block@),
            !r ==> final(self).blocks_spec() == old(self).blocks_spec(),
            final(self).foreign_spec() == old(self).foreign_spec(),
            final(self).leaf_block == old(self).leaf_block,
            final(self).last_proposed == old(self).last_proposed,
            final(self).last_sent_vote == old(self).last_sent_vote,
    {
        if self.position(&block.id).is_some() {
            return false;
        }
        let ghost s = self.blocks_spec();
        let mut k: usize = self.blocks.len();
        while k > 0 && self.blocks[k - 1].height > block.height
            invariant
                0 <= k <= self.blocks@.len(),
                s == models(self.blocks@),
                forall|j: int| k <= j < s.len() ==> s[j].height > block.height,
            decreases k,
        {
            k = k - 1;
        }
        let ghost bm = block@;
        self.blocks.insert(k, block);
        proof {
            assert(self.blocks_spec() =~= s.insert(k as int, bm));
            assert forall|i: int, j: int| 0 <= i < j < self.blocks_spec().len() implies self.blocks_spec()[i].height <= self.blocks_spec()[j].height by {
                if k > 0 {
                    assert(s[k - 1].height <= bm.height);
                }
            }
            assert forall|i: int, j: int| 0 <= i < j < self.blocks_spec().len() implies self.blocks_spec()[i].id != self.blocks_spec()[j].id by {
                if i == k as int {
                    assert(s[j - 1].id != bm.id);
                } else if j == k as int {
                    assert(s[i].id != bm.id);
                }
            }
        }
        true
    }

    /// Records a foreign proposal carried with the block `block_id`.
    pub fn add_foreign_proposal(&mut self, block_id: Vec<u8>, proposal: Vec<u8>)
        ensures
            final(self).foreign_spec() == old(self).foreign_spec().push(
                ForeignProposalRecord { block_id, proposal },
            ),
            final(self).blocks_spec() == old(self).blocks_spec(),
            final(self).leaf_block == old(self).leaf_block,
            final(self).last_proposed == old(self).last_proposed,
            final(self).last_sent_vote == old(self).last_sent_vote,
    {
        self.foreign_proposals.push(ForeignProposalRecord { block_id, proposal });
    }

    /// The foreign proposals carried with block `block_id`, in the order they
    /// were recorded.
    pub fn get_foreign_proposals(&self, block_id: &Vec<u8>) -> (r: Vec<Vec<u8>>)
        ensures
            byte_views(r@) == proposals_for(self.foreign_spec(), block_id@),
    {
        let mut out: Vec<Vec<u8>> = Vec::new();
        let mut i: usize = 0;
        while i < self.foreign_proposals.len()
            invariant
                0 <= i <= self.foreign_proposals@.len(),
                byte_views(out@) == proposals_for(self.foreign_proposals@.take(i as int), block_id@),
            decreases self.foreign_proposals@.len() - i,
        {
            let rec = &self.foreign_proposals[i];
            let ghost before = out@;
            assert(self.foreign_proposals@.take(i + 1).drop_last() =~= self.foreign_proposals@.take(
                i as int,
            ));
            if bytes_eq(&rec.block_id, block_id) {
                out.push(rec.proposal.clone());
                assert(byte_views(out@) =~= byte_views(before).push(rec.proposal@));
            }
            i = i + 1;
        }
        assert(self.foreign_proposals@.take(i as int) =~= self.foreign_proposals@);
        out
    }

    /// The blocks of `epoch` and `shard` whose heights lie between `lo` and
    /// `hi` (both included when `inclusive` is set, both left out when it is
    /// not), by ascending height, at most `limit` of them.
    pub fn get_all_blocks_between(
        &self,
        epoch: u64,
        shard: u32,
        lo: u64,
        hi: u64,
        inclusive: bool,
        limit: usize,
    ) -> (r: Vec<Block>)
        requires
            self.wf(),
        ensures
            ({
                let all = blocks_between(self.blocks_spec(), epoch, shard, lo, hi, inclusive);
                models(r@) == all.take(if all.len() < limit { all.len() as int } else { limit as int })
            }),
            sorted_by_height(models(r@)),
    {
        let ghost s = self.blocks_spec();
        let ghost all = blocks_between(s, epoch, shard, lo, hi, inclusive);
        let mut out: Vec<Block> = Vec::new();
        let mut i: usize = 0;
        while i < self.blocks.len() && out.len() < limit
            invariant
                0 <= i <= self.blocks@.len(),
                s == models(self.blocks@),
                all == blocks_between(s, epoch, shard, lo, hi, inclusive),
                models(out@) == blocks_between(s.take(i as int), epoch, shard, lo, hi, inclusive),
                out@.len() <= limit,
            decreases self.blocks@.len() - i,
        {
            let b = &self.blocks[i];
            let ghost before = out@;
            assert(s.take(i + 1).drop_last() =~= s.take(i as int));
            assert(s.take(i + 1).last() == b@);
            let keep = b.epoch == epoch && b.shard == shard && if inclusive {
                lo <= b.height && b.height <= hi
            } else {
                lo < b.height && b.height < hi
            };
            if keep {
                let c = b.clone();
                out.push(c);
                assert(models(out@) =~= models(before).push(b@));
            }
            i = i + 1;
        }
        proof {
            lemma_blocks_between_prefix(s, i as int, epoch, shard, lo, hi, inclusive);
            if i == self.blocks@.len() {
                assert(s.take(i as int) =~= s);
                assert(all.take(all.len() as int) =~= all);
            }
            lemma_selection_sorted(s, epoch, shard, lo, hi, inclusive);
        }
        out
    }

    /// The HotStuff commit rule. Observing a certificate on block `b`, whose
    /// own certificate names its parent `p`, whose certificate in turn names
    /// `g`, commits `g`. Returns the id of the block committed, if any.
    pub fn commit_on_qc(&mut self, qc: &QuorumCertificate) -> (r: Option<Vec<u8>>)
        requires
            old(self).wf(),
        ensures
            final(self).wf(),
            final(self).foreign_spec() == old(self).foreign_spec(),
            final(self).leaf_block == old(self).leaf_block,
            final(self).last_proposed == old(self).last_proposed,
            final(self).last_sent_vote == old(self).last_sent_vote,
            r is Some <==> exists|b: int, p: int, g: int| three_chain(old(self).blocks_spec(), qc.block_id@, b, p, g),
            r is None ==> final(self).blocks_spec() == old(self).blocks_spec(),
            r is Some ==> exists|b: int, p: int, g: int| {
                &&& #[trigger] three_chain(old(self).blocks_spec(), qc.block_id@, b, p, g)
                &&& r->Some_0@ == old(self).blocks_spec()[g].id
                &&& final(self).blocks_spec() == old(self).blocks_spec().update(
                    g,
                    BlockModel { is_committed: true, ..old(self).blocks_spec()[g] },
                )
            },
    {
        let ghost s = self.blocks_spec();
        let bi = match self.position(&qc.block_id) {
            Some(i) => i,
            None => {
                assert forall|b: int, p: int, g: int| !three_chain(s, qc.block_id@, b, p, g) by {}
                return None;
            },
        };
        let pi = match self.position(&self.blocks[bi].justify.block_id) {
            Some(i) => i,
            None => {
                assert forall|b: int, p: int, g: int| !three_chain(s, qc.block_id@, b, p, g) by {
                    if three_chain(s, qc.block_id@, b, p, g) {
                        assert(s[b].id == s[bi as int].id);
                    }
                }
                return None;
            },
        };
        let gi = match self.position(&self.blocks[pi].justify.block_id) {
            Some(i) => i,
            None => {
                assert forall|b: int, p: int, g: int| !three_chain(s, qc.block_id@, b, p, g) by {
                    if three_chain(s, qc.block_id@, b, p, g) {
                        assert(s[b].id == s[bi as int].id);
                        assert(b == bi);
                        assert(s[p].id == s[pi as int].id);
                    }
                }
                return None;
            },
        };
        assert(three_chain(s, qc.block_id@, bi as int, pi as int, gi as int));
        let id = self.blocks[gi].id.clone();
        let mut g = self.blocks.remove(gi);
        g.is_committed = true;
        self.blocks.insert(gi, g);
        proof {
            assert(self.blocks_spec() =~= s.update(gi as int, BlockModel { is_committed: true, ..s[gi as int] }));
        }
        Some(id)
    }
}

/// Heights strictly rising: at most one block per height.
pub open spec fn strictly_by_height(s: Seq<BlockModel>) -> bool {
    forall|i: int, j: int| 0 <= i < j < s.len() ==> s[i].height < s[j].height
}

/// Selecting from blocks with strictly rising heights keeps them strictly
/// rising.
pub proof fn lemma_selection_strict(
    s: Seq<BlockModel>,
    epoch: u64,
    shard: u32,
    lo: u64,
    hi: u64,
    inclusive: bool,
)
    requires
        strictly_by_height(s),
    ensures
        strictly_by_height(blocks_between(s, epoch, shard, lo, hi, inclusive)),
    decreases s.len(),
{
    if s.len() > 0 {
        let d = s.drop_last();
        assert(strictly_by_height(d));
        assert(sorted_by_height(d));
        lemma_selection_strict(d, epoch, shard, lo, hi, inclusive);
        lemma_selection_sorted(d, epoch, shard, lo, hi, inclusive);
        let p = blocks_between(d, epoch, shard, lo, hi, inclusive);
        assert forall|i: int| 0 <= i < p.len() implies #[trigger] p[i].height < s.last().height by {
            assert(d.contains(p[i]));
            let k = choose|k: int| 0 <= k < d.len() && d[k] == p[i];
            assert(s[k] == d[k]);
        }
    }
}

/// Selecting from blocks sorted by height keeps them sorted.
pub proof fn lemma_selection_sorted(
    s: Seq<BlockModel>,
    epoch: u64,
    shard: u32,
    lo: u64,
    hi: u64,
    inclusive: bool,
)
    requires
        sorted_by_height(s),
    ensures
        sorted_by_height(blocks_between(s, epoch, shard, lo, hi, inclusive)),
        forall|i: int|
            0 <= i < blocks_between(s, epoch, shard, lo, hi, inclusive).len() ==> s.contains(
                #[trigger] blocks_between(s, epoch, shard, lo, hi, inclusive)[i],
            ) && in_range(blocks_between(s, epoch, shard, lo, hi, inclusive)[i], epoch, shard, lo, hi, inclusive),
    decreases s.len(),
{
    if s.len() > 0 {
        let d = s.drop_last();
        assert(sorted_by_height(d));
        lemma_selection_sorted(d, epoch, shard, lo, hi, inclusive);
        let p = blocks_between(d, epoch, shard, lo, hi, inclusive);
        assert forall|i: int| 0 <= i < p.len() implies #[trigger] p[i].height <= s.last().height by {
            assert(d.contains(p[i]));
            let k = choose|k: int| 0 <= k < d.len() && d[k] == p[i];
            assert(s[k] == d[k]);
        }
        assert forall|i: int| 0 <= i < p.len() implies s.contains(#[trigger] p[i]) by {
            assert(d.contains(p[i]));
            let k = choose|k: int| 0 <= k < d.len() && d[k] == p[i];
            assert(s[k] == d[k]);
        }
        assert(s.contains(s.last())) by {
            assert(s[s.len() - 1] == s.last());
        }
    }
}

} // verus!
