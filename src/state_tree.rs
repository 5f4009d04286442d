use vstd::prelude::*;
use crate::block::{zero_hash, zero_hash_bytes};
use crate::hashing::{blake2b_256, blake2b_256_of, push_bytes, push_u64_le, u64_le};

verus! {

/// The value of a leaf: its key and the hash of the value it holds.
pub type LeafModel = (u64, Seq<u8>);

/// A leaf of the state tree: a substate's key and the hash of its value.
#[derive(Debug)]
pub struct Leaf {
    pub key: u64,
    pub value_hash: Vec<u8>,
}

impl View for Leaf {
    type V = LeafModel;

    open spec fn view(&self) -> LeafModel {
        (self.key, self.value_hash@)
    }
}

impl Clone for Leaf {
    fn clone(&self) -> (r: Self)
        ensures
            r@ == self@,
    {
        Leaf { key: self.key, value_hash: self.value_hash.clone() }
    }
}

pub open spec fn leaf_models(s: Seq<Leaf>) -> Seq<LeafModel> {
    s.map_values(|l: Leaf| l@)
}

/// The value of a [`SubstateTreeChange`].
pub enum ChangeModel {
    Up(u64, Seq<u8>),
    Down(u64),
}

/// One change to the state tree: insert or replace a leaf, or delete one.
#[derive(Debug)]
pub enum SubstateTreeChange {
    Up { id: u64, value_hash: Vec<u8> },
    Down { id: u64 },
}

impl View for SubstateTreeChange {
    type V = ChangeModel;

    open spec fn view(&self) -> ChangeModel {
        match self {
            SubstateTreeChange::Up { id, value_hash } => ChangeModel::Up(*id, value_hash@),
            SubstateTreeChange::Down { id } => ChangeModel::Down(*id),
        }
    }
}

impl Clone for SubstateTreeChange {
    fn clone(&self) -> (r: Self)
        ensures
            r@ == self@,
    {
        match self {
            SubstateTreeChange::Up { id, value_hash } => SubstateTreeChange::Up {
                id: *id,
                value_hash: value_hash.clone(),
            },
            SubstateTreeChange::Down { id } => SubstateTreeChange::Down { id: *id },
        }
    }
}

pub open spec fn change_models(s: Seq<SubstateTreeChange>) -> Seq<ChangeModel> {
    s.map_values(|c: SubstateTreeChange| c@)
}

/// Why a state-tree update failed.
#[derive(Debug, Clone, Copy, PartialEq, Eq)]
pub enum StateTreeError {
    /// A change deletes a leaf that is in neither the committed tree nor an
    /// earlier stage.
    MissingNode,
    /// The next version is not above the current one.
    VersionMismatch,
}

/// The leaves of `s` with keys below `k`, in order.
pub open spec fn below(s: Seq<LeafModel>, k: u64) -> Seq<LeafModel>
    decreases s.len(),
{
    if s.len() == 0 {
        Seq::empty()
    } else if s.last().0 < k {
        below(s.drop_last(), k).push(s.last())
    } else {
        below(s.drop_last(), k)
    }
}

/// The leaves of `s` with keys above `k`, in order.
pub open spec fn above(s: Seq<LeafModel>, k: u64) -> Seq<LeafModel>
    decreases s.len(),
{
    if s.len() == 0 {
        Seq::empty()
    } else if s.last().0 > k {
        above(s.drop_last(), k).push(s.last())
    } else {
        above(s.drop_last(), k)
    }
}

pub open spec fn has_key(s: Seq<LeafModel>, k: u64) -> bool {
    exists|i: int| 0 <= i < s.len() && s[i].0 == k
}

/// The leaves after one change, or `None` where it deletes a missing leaf.
pub open spec fn apply_change(s: Seq<LeafModel>, c: ChangeModel) -> Option<Seq<LeafModel>> {
    match c {
        ChangeModel::Up(k, h) => Some(below(s, k) + seq![(k, h)] + above(s, k)),
        ChangeModel::Down(k) => if has_key(s, k) {
            Some(below(s, k) + above(s, k))
        } else {
            None
        },
    }
}

/// The leaves after the changes, applied in order.
pub open spec fn apply_changes(s: Seq<LeafModel>, cs: Seq<ChangeModel>) -> Option<Seq<LeafModel>>
    decreases cs.len(),
{
    if cs.len() == 0 {
        Some(s)
    } else {
        match apply_changes(s, cs.drop_last()) {
            Some(t) => apply_change(t, cs.last()),
            None => None,
        }
    }
}

/// The leaves after each diff's changes, the diffs applied in order.
pub open spec fn apply_diffs(s: Seq<LeafModel>, ds: Seq<Seq<ChangeModel>>) -> Option<Seq<LeafModel>>
    decreases ds.len(),
{
    if ds.len() == 0 {
        Some(s)
    } else {
        match apply_diffs(s, ds.drop_last()) {
            Some(t) => apply_changes(t, ds.last()),
            None => None,
        }
    }
}

/// A leaf as the tree holds it: the hash of its substate id, and its value hash.
pub type KeyedModel = (Seq<u8>, Seq<u8>);

/// Where a substate sits in the tree: the Blake2b-256 hash of its id.
pub open spec fn key_of(id: u64) -> Seq<u8> {
    blake2b_256_of(u64_le(id))
}

pub open spec fn keyed(s: Seq<LeafModel>) -> Seq<KeyedModel> {
    s.map_values(|l: LeafModel| (key_of(l.0), l.1))
}

/// Bit `d` of `key`, most significant bit of the first byte first; past the
/// end of the key every bit is clear.
pub open spec fn bit_at(key: Seq<u8>, d: nat) -> bool {
    d / 8 < key.len() && ((key[(d / 8) as int] >> ((7 - (d % 8) as int) as u8)) & 1u8) == 1u8
}

/// The leaves of `s` whose key has bit `d` equal to `b`, in order.
pub open spec fn side(s: Seq<KeyedModel>, d: nat, b: bool) -> Seq<KeyedModel>
    decreases s.len(),
{
    if s.len() == 0 {
        Seq::empty()
    } else if bit_at(s.last().0, d) == b {
        side(s.drop_last(), d, b).push(s.last())
    } else {
        side(s.drop_last(), d, b)
    }
}

/// The hash of a leaf node: a zero tag byte, the key, the value hash.
pub open spec fn leaf_hash(l: KeyedModel) -> Seq<u8> {
    blake2b_256_of(seq![0u8] + l.0 + l.1)
}

/// The hash of an internal node: a one tag byte, then its children's hashes.
pub open spec fn node_hash(left: Seq<u8>, right: Seq<u8>) -> Seq<u8> {
    blake2b_256_of(seq![1u8] + left + right)
}

/// The root of the subtree at depth `d` holding leaves `s`: the zero hash when
/// it is empty, the leaf's own hash when it holds one leaf (the prefix is not
/// spelled out below it), else the hash of its two children, split on bit `d`.
pub open spec fn node_root(s: Seq<KeyedModel>, d: nat) -> Seq<u8>
    decreases 256 - d,
{
    if s.len() == 0 {
        zero_hash()
    } else if s.len() == 1 {
        leaf_hash(s[0])
    } else if d >= 256 {
        zero_hash()
    } else {
        node_hash(node_root(side(s, d, false), d + 1), node_root(side(s, d, true), d + 1))
    }
}

/// The root of the sparse Merkle tree of the leaves.
pub open spec fn tree_root(s: Seq<LeafModel>) -> Seq<u8> {
    node_root(keyed(s), 0)
}

/// Keys strictly ascending: the one form a set of leaves has.
pub open spec fn strictly_sorted(s: Seq<LeafModel>) -> bool {
    forall|i: int, j: int| 0 <= i < j < s.len() ==> s[i].0 < s[j].0
}

/// Selecting keys below (or above) a bound keeps the leaves' order and
/// leaves only keys on that side of it.
pub proof fn lemma_below_above(s: Seq<LeafModel>, k: u64)
    requires
        strictly_sorted(s),
    ensures
        strictly_sorted(below(s, k)),
        strictly_sorted(above(s, k)),
        forall|i: int| 0 <= i < below(s, k).len() ==> (#[trigger] below(s, k)[i]).0 < k,
        forall|i: int| 0 <= i < above(s, k).len() ==> (#[trigger] above(s, k)[i]).0 > k,
        forall|i: int| 0 <= i < below(s, k).len() ==> s.contains(#[trigger] below(s, k)[i]),
        forall|i: int| 0 <= i < above(s, k).len() ==> s.contains(#[trigger] above(s, k)[i]),
    decreases s.len(),
{
    if s.len() > 0 {
        let d = s.drop_last();
        lemma_below_above(d, k);
        assert forall|x: LeafModel| d.contains(x) implies x.0 < s.last().0 && s.contains(x) by {
            let i = choose|i: int| 0 <= i < d.len() && d[i] == x;
            assert(s[i] == x);
        }
        assert(s.contains(s.last())) by {
            assert(s[s.len() - 1] == s.last());
        }
        let b = below(d, k);
        let a = above(d, k);
        assert forall|i: int| 0 <= i < b.len() implies #[trigger] b[i].0 < s.last().0 by {
            assert(d.contains(b[i]));
        }
        assert forall|i: int| 0 <= i < a.len() implies #[trigger] a[i].0 < s.last().0 by {
            assert(d.contains(a[i]));
        }
    }
}

/// Every change keeps the leaves in their one sorted form.
pub proof fn lemma_apply_change_sorted(s: Seq<LeafModel>, c: ChangeModel)
    requires
        strictly_sorted(s),
        apply_change(s, c) is Some,
    ensures
        strictly_sorted(apply_change(s, c)->Some_0),
{
    let k = match c {
        ChangeModel::Up(k, _) => k,
        ChangeModel::Down(k) => k,
    };
    lemma_below_above(s, k);
    let b = below(s, k);
    let a = above(s, k);
    let t = apply_change(s, c)->Some_0;
    match c {
        ChangeModel::Up(k, h) => {
            assert forall|i: int, j: int| 0 <= i < j < t.len() implies t[i].0 < t[j].0 by {
                if j < b.len() {
                } else if i < b.len() {
                    if j > b.len() {
                        assert(t[j] == a[j - b.len() - 1]);
                    }
                } else if i == b.len() {
                    assert(t[j] == a[j - b.len() - 1]);
                } else {
                    assert(t[i] == a[i - b.len() - 1]);
                    assert(t[j] == a[j - b.len() - 1]);
                }
            }
        },
        ChangeModel::Down(k) => {
            assert forall|i: int, j: int| 0 <= i < j < t.len() implies t[i].0 < t[j].0 by {
                if j < b.len() {
                } else if i < b.len() {
                    assert(t[j] == a[j - b.len()]);
                } else {
                    assert(t[i] == a[i - b.len()]);
                    assert(t[j] == a[j - b.len()]);
                }
            }
        },
    }
}

pub proof fn lemma_apply_changes_sorted(s: Seq<LeafModel>, cs: Seq<ChangeModel>)
    requires
        strictly_sorted(s),
        apply_changes(s, cs) is Some,
    ensures
        strictly_sorted(apply_changes(s, cs)->Some_0),
    decreases cs.len(),
{
    if cs.len() > 0 {
        lemma_apply_changes_sorted(s, cs.drop_last());
        lemma_apply_change_sorted(apply_changes(s, cs.drop_last())->Some_0, cs.last());
    }
}

/// A leaf keyed by the hash of its substate id.
#[derive(Debug)]
pub struct KeyedLeaf {
    pub key: Vec<u8>,
    pub value_hash: Vec<u8>,
}

impl View for KeyedLeaf {
    type V = KeyedModel;

    open spec fn view(&self) -> KeyedModel {
        (self.key@, self.value_hash@)
    }
}

impl Clone for KeyedLeaf {
    fn clone(&self) -> (r: Self)
        ensures
            r@ == self@,
    {
        KeyedLeaf { key: self.key.clone(), value_hash: self.value_hash.clone() }
    }
}

pub open spec fn keyed_models(s: Seq<KeyedLeaf>) -> Seq<KeyedModel> {
    s.map_values(|l: KeyedLeaf| l@)
}

fn keyed_leaves(leaves: &Vec<Leaf>) -> (r: Vec<KeyedLeaf>)
    ensures
        keyed_models(r@) == keyed(leaf_models(leaves@)),
{
    let mut out: Vec<KeyedLeaf> = Vec::new();
    let mut i: usize = 0;
    while i < leaves.len()
        invariant
            0 <= i <= leaves@.len(),
            keyed_models(out@) == keyed(leaf_models(leaves@).take(i as int)),
        decreases leaves@.len() - i,
    {
        let ghost before = out@;
        let mut id_bytes: Vec<u8> = Vec::new();
        push_u64_le(&mut id_bytes, leaves[i].key);
        assert(id_bytes@ =~= u64_le(leaves@[i as int].key));
        let key = blake2b_256(&id_bytes);
        out.push(KeyedLeaf { key, value_hash: leaves[i].value_hash.clone() });
        assert(keyed_models(out@) =~= keyed_models(before).push((key_of(leaves@[i as int].key), leaves@[i as int].value_hash@)));
        assert(keyed(leaf_models(leaves@).take(i + 1)) =~= keyed(leaf_models(leaves@).take(i as int)).push(
            (key_of(leaves@[i as int].key), leaves@[i as int].value_hash@),
        ));
        i = i + 1;
    }
    assert(leaf_models(leaves@).take(i as int) =~= leaf_models(leaves@));
    out
}

fn bit_exec(key: &Vec<u8>, d: usize) -> (r: bool)
    ensures
        r == bit_at(key@, d as nat),
{
    if d / 8 < key.len() {
        (key[d / 8] >> ((7 - d % 8) as u8)) & 1u8 == 1u8
    } else {
        false
    }
}

fn split_side(v: &Vec<KeyedLeaf>, d: usize, b: bool) -> (r: Vec<KeyedLeaf>)
    ensures
        keyed_models(r@) == side(keyed_models(v@), d as nat, b),
{
    let ghost s = keyed_models(v@);
    let mut out: Vec<KeyedLeaf> = Vec::new();
    let mut i: usize = 0;
    while i < v.len()
        invariant
            0 <= i <= v@.len(),
            s == keyed_models(v@),
            keyed_models(out@) == side(s.take(i as int), d as nat, b),
        decreases v@.len() - i,
    {
        let ghost before = out@;
        proof {
            assert(s.take(i + 1).drop_last() =~= s.take(i as int));
            assert(s.take(i + 1).last() == v@[i as int]@);
        }
        if bit_exec(&v[i].key, d) == b {
            out.push(v[i].clone());
            assert(keyed_models(out@) =~= keyed_models(before).push(v@[i as int]@));
        }
        i = i + 1;
    }
    assert(s.take(i as int) =~= s);
    out
}

fn hash_node(tag: u8, a: &Vec<u8>, b: &Vec<u8>) -> (r: Vec<u8>)
    ensures
        r@ == blake2b_256_of(seq![tag] + a@ + b@),
{
    let mut pre: Vec<u8> = Vec::new();
    pre.push(tag);
    push_bytes(&mut pre, a);
    push_bytes(&mut pre, b);
    assert(pre@ =~= seq![tag] + a@ + b@);
    blake2b_256(&pre)
}

fn node_root_exec(v: &Vec<KeyedLeaf>, d: usize) -> (r: Vec<u8>)
    requires
        d <= 256,
    ensures
        r@ == node_root(keyed_models(v@), d as nat),
    decreases 256 - d,
{
    if v.len() == 0 {
        return zero_hash_bytes();
    }
    if v.len() == 1 {
        assert(keyed_models(v@)[0] == v@[0]@);
        return hash_node(0u8, &v[0].key, &v[0].value_hash);
    }
    if d >= 256 {
        return zero_hash_bytes();
    }
    let left = split_side(v, d, false);
    let right = split_side(v, d, true);
    let l = node_root_exec(&left, d + 1);
    let r = node_root_exec(&right, d + 1);
    hash_node(1u8, &l, &r)
}

/// The root of the leaves, as [`tree_root`] states it.
fn compute_root(leaves: &Vec<Leaf>) -> (r: Vec<u8>)
    ensures
        r@ == tree_root(leaf_models(leaves@)),
{
    let keyed_v = keyed_leaves(leaves);
    node_root_exec(&keyed_v, 0)
}

fn has_key_exec(leaves: &Vec<Leaf>, k: u64) -> (r: bool)
    ensures
        r == has_key(leaf_models(leaves@), k),
{
    let mut i: usize = 0;
    while i < leaves.len()
        invariant
            0 <= i <= leaves@.len(),
            forall|j: int| 0 <= j < i ==> leaves@[j].key != k,
        decreases leaves@.len() - i,
    {
        if leaves[i].key == k {
            assert(leaf_models(leaves@)[i as int].0 == k);
            return true;
        }
        i = i + 1;
    }
    proof {
        assert forall|j: int| 0 <= j < leaves@.len() implies leaf_models(leaves@)[j].0 != k by {
            assert(leaf_models(leaves@)[j] == leaves@[j]@);
        }
    }
    false
}

/// Appends the leaves whose keys are below `k` (or above it, if `upper`).
fn push_side(out: &mut Vec<Leaf>, leaves: &Vec<Leaf>, k: u64, upper: bool)
    ensures
        leaf_models(final(out)@) == leaf_models(old(out)@) + (if upper {
            above(leaf_models(leaves@), k)
        } else {
            below(leaf_models(leaves@), k)
        }),
{
    let ghost start = leaf_models(out@);
    let ghost s = leaf_models(leaves@);
    let mut i: usize = 0;
    while i < leaves.len()
        invariant
            0 <= i <= leaves@.len(),
            s == leaf_models(leaves@),
            leaf_models(out@) == start + (if upper {
                above(s.take(i as int), k)
            } else {
                below(s.take(i as int), k)
            }),
        decreases leaves@.len() - i,
    {
        let ghost before = out@;
        let l = &leaves[i];
        proof {
            assert(s.take(i + 1).drop_last() =~= s.take(i as int));
            assert(s.take(i + 1).last() == l@);
        }
        if (upper && l.key > k) || (!upper && l.key < k) {
            out.push(l.clone());
            assert(leaf_models(out@) =~= leaf_models(before).push(l@));
        }
        i = i + 1;
    }
    assert(s.take(i as int) =~= s);
}

/// The leaves after one change, or `None` where it deletes a missing leaf.
fn apply_change_exec(leaves: &Vec<Leaf>, change: &SubstateTreeChange) -> (r: Option<Vec<Leaf>>)
    ensures
        r is Some <==> apply_change(leaf_models(leaves@), change@) is Some,
        r is Some ==> leaf_models(r->Some_0@) == apply_change(leaf_models(leaves@), change@)->Some_0,
{
    let (k, up) = match change {
        SubstateTreeChange::Up { id, value_hash } => (*id, Some(value_hash)),
        SubstateTreeChange::Down { id } => (*id, None),
    };
    if up.is_none() && !has_key_exec(leaves, k) {
        return None;
    }
    let mut out: Vec<Leaf> = Vec::new();
    assert(leaf_models(out@) =~= Seq::<LeafModel>::empty());
    push_side(&mut out, leaves, k, false);
    match up {
        Some(h) => {
            let ghost before = out@;
            out.push(Leaf { key: k, value_hash: h.clone() });
            assert(leaf_models(out@) =~= leaf_models(before).push((k, h@)));
        },
        None => {},
    }
    push_side(&mut out, leaves, k, true);
    proof {
        let s = leaf_models(leaves@);
        match change@ {
            ChangeModel::Up(k2, h2) => {
                assert(leaf_models(out@) =~= below(s, k) + seq![(k, h2)] + above(s, k));
            },
            ChangeModel::Down(k2) => {
                assert(leaf_models(out@) =~= below(s, k) + above(s, k));
            },
        }
    }
    Some(out)
}

/// The leaves after the changes applied in order, or `None` where one deletes
/// a missing leaf.
fn apply_changes_exec(leaves: &Vec<Leaf>, changes: &Vec<SubstateTreeChange>) -> (r: Option<Vec<Leaf>>)
    ensures
        r is Some <==> apply_changes(leaf_models(leaves@), change_models(changes@)) is Some,
        r is Some ==> leaf_models(r->Some_0@) == apply_changes(
            leaf_models(leaves@),
            change_models(changes@),
        )->Some_0,
{
    let mut cur: Vec<Leaf> = Vec::new();
    let mut i: usize = 0;
    push_side_all(&mut cur, leaves);
    while i < changes.len()
        invariant
            0 <= i <= changes@.len(),
            apply_changes(leaf_models(leaves@), change_models(changes@).take(i as int)) == Some(
                leaf_models(cur@),
            ),
        decreases changes@.len() - i,
    {
        proof {
            let cs = change_models(changes@);
            assert(cs.take(i + 1).drop_last() =~= cs.take(i as int));
            assert(cs.take(i + 1).last() == changes@[i as int]@);
        }
        match apply_change_exec(&cur, &changes[i]) {
            Some(next) => {
                cur = next;
            },
            None => {
                proof {
                    lemma_apply_changes_none_extends(
                        leaf_models(leaves@),
                        change_models(changes@),
                        i as int + 1,
                    );
                }
                return None;
            },
        }
        i = i + 1;
    }
    assert(change_models(changes@).take(i as int) =~= change_models(changes@));
    Some(cur)
}

/// Copies all leaves.
fn push_side_all(out: &mut Vec<Leaf>, leaves: &Vec<Leaf>)
    requires
        old(out)@.len() == 0,
    ensures
        leaf_models(final(out)@) == leaf_models(leaves@),
{
    let mut i: usize = 0;
    while i < leaves.len()
        invariant
            0 <= i <= leaves@.len(),
            leaf_models(out@) == leaf_models(leaves@).take(i as int),
        decreases leaves@.len() - i,
    {
        let ghost before = out@;
        let l = leaves[i].clone();
        out.push(l);
        assert(leaf_models(out@) =~= leaf_models(before).push(leaves@[i as int]@));
        assert(leaf_models(out@) =~= leaf_models(leaves@).take(i + 1));
        i = i + 1;
    }
    assert(leaf_models(leaves@).take(i as int) =~= leaf_models(leaves@));
}

/// Once a prefix of the changes fails, so do all of them.
pub proof fn lemma_apply_changes_none_extends(s: Seq<LeafModel>, cs: Seq<ChangeModel>, i: int)
    requires
        0 <= i <= cs.len(),
        apply_changes(s, cs.take(i)) is None,
    ensures
        apply_changes(s, cs) is None,
    decreases cs.len() - i,
{
    if i < cs.len() {
        assert(cs.take(i + 1).drop_last() =~= cs.take(i));
        lemma_apply_changes_none_extends(s, cs, i + 1);
    } else {
        assert(cs.take(i) =~= cs);
    }
}

/// Putting no changes leaves the staged leaves, and so the staged root, as
/// they are.
pub proof fn lemma_empty_changes_keep_root(s: Seq<LeafModel>)
    ensures
        apply_changes(s, Seq::empty()) == Some(s),
        tree_root(apply_changes(s, Seq::empty())->Some_0) == tree_root(s),
{
}

pub open spec fn change_id(c: ChangeModel) -> u64 {
    match c {
        ChangeModel::Up(k, _) => k,
        ChangeModel::Down(k) => k,
    }
}

/// `c` placed after every change of `s` whose id is not above its own.
pub open spec fn insert_by_id(s: Seq<ChangeModel>, c: ChangeModel) -> Seq<ChangeModel>
    decreases s.len(),
{
    if s.len() == 0 {
        seq![c]
    } else if change_id(s.last()) <= change_id(c) {
        s.push(c)
    } else {
        insert_by_id(s.drop_last(), c).push(s.last())
    }
}

/// The changes ordered by id; changes of one id keep their order.
pub open spec fn sort_by_id(cs: Seq<ChangeModel>) -> Seq<ChangeModel>
    decreases cs.len(),
{
    if cs.len() == 0 {
        Seq::empty()
    } else {
        insert_by_id(sort_by_id(cs.drop_last()), cs.last())
    }
}

pub open spec fn sorted_by_id(s: Seq<ChangeModel>) -> bool {
    forall|i: int, j: int| 0 <= i < j < s.len() ==> change_id(s[i]) <= change_id(s[j])
}

proof fn lemma_insert_by_id_at(s: Seq<ChangeModel>, c: ChangeModel, k: int)
    requires
        0 <= k <= s.len(),
        forall|j: int| k <= j < s.len() ==> change_id(#[trigger] s[j]) > change_id(c),
        k > 0 ==> change_id(s[k - 1]) <= change_id(c),
    ensures
        insert_by_id(s, c) == s.insert(k, c),
    decreases s.len(),
{
    if k == s.len() {
        assert(s.push(c) =~= s.insert(k, c));
    } else {
        let d = s.drop_last();
        assert(change_id(s[s.len() - 1]) > change_id(c));
        assert forall|j: int| k <= j < d.len() implies change_id(#[trigger] d[j]) > change_id(c) by {
            assert(d[j] == s[j]);
        }
        lemma_insert_by_id_at(d, c, k);
        assert(d.insert(k, c).push(s.last()) =~= s.insert(k, c));
    }
}

/// Sorting by id gives changes in ascending id order.
pub proof fn lemma_sort_by_id_sorted(cs: Seq<ChangeModel>)
    ensures
        sorted_by_id(sort_by_id(cs)),
        sort_by_id(cs).len() == cs.len(),
    decreases cs.len(),
{
    if cs.len() > 0 {
        lemma_sort_by_id_sorted(cs.drop_last());
        lemma_insert_by_id_sorted(sort_by_id(cs.drop_last()), cs.last());
    }
}

proof fn lemma_insert_by_id_sorted(s: Seq<ChangeModel>, c: ChangeModel)
    requires
        sorted_by_id(s),
    ensures
        sorted_by_id(insert_by_id(s, c)),
        insert_by_id(s, c).len() == s.len() + 1,
        forall|i: int| 0 <= i < insert_by_id(s, c).len() ==> (#[trigger] insert_by_id(s, c)[i] == c || s.contains(insert_by_id(s, c)[i])),
    decreases s.len(),
{
    if s.len() > 0 {
        let d = s.drop_last();
        assert(sorted_by_id(d));
        if change_id(s.last()) > change_id(c) {
            lemma_insert_by_id_sorted(d, c);
            let t = insert_by_id(d, c);
            assert forall|i: int| 0 <= i < t.len() implies change_id(#[trigger] t[i]) <= change_id(s.last()) by {
                if t[i] != c {
                    let j = choose|j: int| 0 <= j < d.len() && d[j] == t[i];
                    assert(s[j] == d[j]);
                }
            }
            assert forall|i: int| 0 <= i < t.len() && t[i] != c implies s.contains(#[trigger] t[i]) by {
                let j = choose|j: int| 0 <= j < d.len() && d[j] == t[i];
                assert(s[j] == d[j]);
            }
            assert(s.contains(s.last())) by {
                assert(s[s.len() - 1] == s.last());
            }
        } else {
            assert forall|i: int| 0 <= i < s.len() implies change_id(#[trigger] s[i]) <= change_id(c) by {
                if i < s.len() - 1 {
                    assert(change_id(s[i]) <= change_id(s[s.len() - 1]));
                }
            }
            assert forall|i: int| 0 <= i < s.len() implies s.contains(#[trigger] s.push(c)[i]) by {
                assert(s.push(c)[i] == s[i]);
            }
        }
    }
}

/// The changes ordered by id, as [`sort_by_id`] states it.
pub fn sort_changes(changes: Vec<SubstateTreeChange>) -> (r: Vec<SubstateTreeChange>)
    ensures
        change_models(r@) == sort_by_id(change_models(changes@)),
{
    let ghost cs = change_models(changes@);
    let mut out: Vec<SubstateTreeChange> = Vec::new();
    let input = changes;
    let n = input.len();
    let mut i: usize = 0;
    while i < n
        invariant
            0 <= i <= n,
            n == input@.len(),
            cs == change_models(input@),
            change_models(out@) == sort_by_id(cs.take(i as int)),
        decreases n - i,
    {
        let c = input[i].clone();
        let ghost s = change_models(out@);
        let mut k: usize = out.len();
        while k > 0 && change_id_exec(&out[k - 1]) > change_id_exec(&c)
            invariant
                0 <= k <= out@.len(),
                s == change_models(out@),
                forall|j: int| k <= j < s.len() ==> change_id(#[trigger] s[j]) > change_id(c@),
            decreases k,
        {
            k = k - 1;
        }
        proof {
            if k > 0 {
                assert(s[k - 1] == out@[k - 1]@);
            }
            lemma_insert_by_id_at(s, c@, k as int);
            assert(cs.take(i + 1).drop_last() =~= cs.take(i as int));
            assert(cs.take(i + 1).last() == c@);
        }
        let ghost cm = c@;
        out.insert(k, c);
        assert(change_models(out@) =~= s.insert(k as int, cm));
        i = i + 1;
    }
    assert(cs.take(n as int) =~= cs);
    out
}

fn change_id_exec(c: &SubstateTreeChange) -> (r: u64)
    ensures
        r == change_id(c@),
{
    match c {
        SubstateTreeChange::Up { id, .. } => *id,
        SubstateTreeChange::Down { id } => *id,
    }
}

/// The root and the changes recorded for the next version: `Err` where the
/// versions do not rise (checked first) or a change deletes a missing leaf. At
/// version zero there is no earlier tree: the changes start from no leaves.
pub open spec fn state_merkle_result(
    leaves: Seq<LeafModel>,
    current_version: u64,
    next_version: u64,
    pending: Seq<Seq<ChangeModel>>,
    changes: Seq<ChangeModel>,
) -> Result<(Seq<u8>, Seq<ChangeModel>), StateTreeError> {
    if current_version > 0 && next_version <= current_version {
        Err(StateTreeError::VersionMismatch)
    } else if current_version == 0 {
        match apply_changes(Seq::empty(), sort_by_id(changes)) {
            None => Err(StateTreeError::MissingNode),
            Some(t) => Ok((tree_root(t), sort_by_id(changes))),
        }
    } else {
        match apply_diffs(leaves, pending) {
            None => Err(StateTreeError::MissingNode),
            Some(staged) => match apply_changes(staged, sort_by_id(changes)) {
                None => Err(StateTreeError::MissingNode),
                Some(t) => Ok((tree_root(t), sort_by_id(changes))),
            },
        }
    }
}

/// The committed tree that a staged store reads from.
#[derive(Debug)]
pub struct TreeStore {
    pub version: u64,
    pub leaves: Vec<Leaf>,
}

impl TreeStore {
    pub open spec fn wf(&self) -> bool {
        strictly_sorted(leaf_models(self.leaves@))
    }

    /// The empty tree at version zero.
    pub fn new() -> (r: Self)
        ensures
            r.wf(),
            r.version == 0,
            r.leaves@.len() == 0,
    {
        TreeStore { version: 0, leaves: Vec::new() }
    }
}

/// The changes a block made to the tree, at the version it made them.
#[derive(Debug)]
pub struct StateHashTreeDiff {
    pub version: u64,
    pub changes: Vec<SubstateTreeChange>,
}

/// A diff of a block that is not committed yet.
#[derive(Debug)]
pub struct PendingStateTreeDiff {
    pub block_id: Vec<u8>,
    pub version: u64,
    pub diff: StateHashTreeDiff,
}

pub open spec fn diff_models(ds: Seq<StateHashTreeDiff>) -> Seq<Seq<ChangeModel>> {
    ds.map_values(|d: StateHashTreeDiff| change_models(d.changes@))
}

pub open spec fn pending_models(ds: Seq<PendingStateTreeDiff>) -> Seq<Seq<ChangeModel>> {
    ds.map_values(|d: PendingStateTreeDiff| change_models(d.diff.changes@))
}

/// Once a prefix of the diffs fails, so do all of them.
pub proof fn lemma_apply_diffs_none_extends(s: Seq<LeafModel>, ds: Seq<Seq<ChangeModel>>, i: int)
    requires
        0 <= i <= ds.len(),
        apply_diffs(s, ds.take(i)) is None,
    ensures
        apply_diffs(s, ds) is None,
    decreases ds.len() - i,
{
    if i < ds.len() {
        assert(ds.take(i + 1).drop_last() =~= ds.take(i));
        lemma_apply_diffs_none_extends(s, ds, i + 1);
    } else {
        assert(ds.take(i) =~= ds);
    }
}

pub proof fn lemma_apply_diffs_sorted(s: Seq<LeafModel>, ds: Seq<Seq<ChangeModel>>)
    requires
        strictly_sorted(s),
        apply_diffs(s, ds) is Some,
    ensures
        strictly_sorted(apply_diffs(s, ds)->Some_0),
    decreases ds.len(),
{
    if ds.len() > 0 {
        lemma_apply_diffs_sorted(s, ds.drop_last());
        lemma_apply_changes_sorted(apply_diffs(s, ds.drop_last())->Some_0, ds.last());
    }
}

/// An overlay over a committed tree: it stacks the diffs of blocks not yet
/// committed, then takes a new block's changes and gives the root they lead to.
#[derive(Debug)]
pub struct StagedTreeStore {
    pub leaves: Vec<Leaf>,
    pub version: u64,
    pub staged: Vec<SubstateTreeChange>,
}

impl StagedTreeStore {
    pub open spec fn wf(&self) -> bool {
        strictly_sorted(leaf_models(self.leaves@))
    }

    pub open spec fn leaves_spec(&self) -> Seq<LeafModel> {
        leaf_models(self.leaves@)
    }

    /// An overlay with nothing staged over `reader`.
    pub fn new(reader: &TreeStore) -> (r: Self)
        requires
            reader.wf(),
        ensures
            r.wf(),
            r.leaves_spec() == leaf_models(reader.leaves@),
            r.version == reader.version,
            r.staged@.len() == 0,
    {
        let mut leaves: Vec<Leaf> = Vec::new();
        push_side_all(&mut leaves, &reader.leaves);
        StagedTreeStore { leaves, version: reader.version, staged: Vec::new() }
    }

    /// The root of the staged tree.
    pub fn root(&self) -> (r: Vec<u8>)
        ensures
            r@ == tree_root(self.leaves_spec()),
    {
        compute_root(&self.leaves)
    }

    /// Stacks `diffs` in the given order. Where one deletes a leaf that is
    /// missing, nothing changes and `MissingNode` is returned.
    pub fn apply_ordered_diffs(&mut self, diffs: &Vec<StateHashTreeDiff>) -> (r: Result<(), StateTreeError>)
        requires
            old(self).wf(),
        ensures
            final(self).wf(),
            final(self).version == old(self).version,
            final(self).staged@ == old(self).staged@,
            r is Ok <==> apply_diffs(old(self).leaves_spec(), diff_models(diffs@)) is Some,
            r is Ok ==> final(self).leaves_spec() == apply_diffs(
                old(self).leaves_spec(),
                diff_models(diffs@),
            )->Some_0,
            r is Err ==> r == Err::<(), _>(StateTreeError::MissingNode) && final(self).leaves_spec()
                == old(self).leaves_spec(),
    {
        let ghost start = self.leaves_spec();
        let ghost dm = diff_models(diffs@);
        let mut cur: Vec<Leaf> = Vec::new();
        push_side_all(&mut cur, &self.leaves);
        let mut i: usize = 0;
        while i < diffs.len()
            invariant
                0 <= i <= diffs@.len(),
                dm == diff_models(diffs@),
                apply_diffs(start, dm.take(i as int)) == Some(leaf_models(cur@)),
                start == old(self).leaves_spec(),
                self.wf(),
                self.leaves_spec() == start,
                self.version == old(self).version,
                self.staged@ == old(self).staged@,
            decreases diffs@.len() - i,
        {
            proof {
                assert(dm.take(i + 1).drop_last() =~= dm.take(i as int));
                assert(dm.take(i + 1).last() == change_models(diffs@[i as int].changes@));
            }
            match apply_changes_exec(&cur, &diffs[i].changes) {
                Some(next) => {
                    cur = next;
                },
                None => {
                    proof {
                        lemma_apply_diffs_none_extends(start, dm, i as int + 1);
                    }
                    return Err(StateTreeError::MissingNode);
                },
            }
            i = i + 1;
        }
        proof {
            assert(dm.take(i as int) =~= dm);
            lemma_apply_diffs_sorted(start, dm);
        }
        self.leaves = cur;
        Ok(())
    }

    /// Applies `changes` on top of what is staged and returns the new root.
    /// The version must rise above `current_version` where one is given; a
    /// change that deletes a missing leaf fails the whole call. On failure
    /// nothing changes.
    pub fn put_substate_changes(
        &mut self,
        current_version: Option<u64>,
        next_version: u64,
        changes: &Vec<SubstateTreeChange>,
    ) -> (r: Result<Vec<u8>, StateTreeError>)
        requires
            old(self).wf(),
        ensures
            final(self).wf(),
            (current_version is Some && next_version <= current_version->Some_0) ==> r == Err::<
                Vec<u8>,
                _,
            >(StateTreeError::VersionMismatch),
            !(current_version is Some && next_version <= current_version->Some_0) ==> ({
                match apply_changes(old(self).leaves_spec(), change_models(changes@)) {
                    Some(t) => {
                        &&& r is Ok
                        &&& r->Ok_0@ == tree_root(t)
                        &&& final(self).leaves_spec() == t
                        &&& final(self).version == next_version
                        &&& change_models(final(self).staged@) == change_models(old(self).staged@)
                            + change_models(changes@)
                    },
                    None => r == Err::<Vec<u8>, _>(StateTreeError::MissingNode),
                }
            }),
            r is Err ==> final(self).leaves_spec() == old(self).leaves_spec() && final(self).version
                == old(self).version && final(self).staged@ == old(self).staged@,
    {
        match current_version {
            Some(c) => {
                if next_version <= c {
                    return Err(StateTreeError::VersionMismatch);
                }
            },
            None => {},
        }
        match apply_changes_exec(&self.leaves, changes) {
            Some(next) => {
                proof {
                    lemma_apply_changes_sorted(self.leaves_spec(), change_models(changes@));
                }
                self.leaves = next;
                self.version = next_version;
                let ghost before = self.staged@;
                let mut extra = clone_changes(changes);
                let ghost extra_v = extra@;
                self.staged.append(&mut extra);
                assert(change_models(self.staged@) =~= change_models(before) + change_models(extra_v));
                Ok(compute_root(&self.leaves))
            },
            None => Err(StateTreeError::MissingNode),
        }
    }

    /// What this overlay added on top of the stacked diffs: its changes, at
    /// the version they were put at.
    pub fn into_diff(self) -> (r: StateHashTreeDiff)
        ensures
            r.version == self.version,
            r.changes@ == self.staged@,
    {
        StateHashTreeDiff { version: self.version, changes: self.staged }
    }
}

/// The root and the diff of the next version: `pending_tree_diffs` stacked on
/// the committed tree in order, then `substate_changes` put at `next_version`.
/// A `current_version` of zero means the tree has no version yet.
pub fn calculate_state_merkle_diff(
    tx: &TreeStore,
    current_version: u64,
    next_version: u64,
    pending_tree_diffs: Vec<PendingStateTreeDiff>,
    substate_changes: Vec<SubstateTreeChange>,
) -> (r: Result<(Vec<u8>, StateHashTreeDiff), StateTreeError>)
    requires
        tx.wf(),
    ensures
        match state_merkle_result(
            leaf_models(tx.leaves@),
            current_version,
            next_version,
            pending_models(pending_tree_diffs@),
            change_models(substate_changes@),
        ) {
            Err(e) => r == Err::<(Vec<u8>, StateHashTreeDiff), _>(e),
            Ok((root, changes)) => {
                &&& r is Ok
                &&& r->Ok_0.0@ == root
                &&& r->Ok_0.1.version == next_version
                &&& change_models(r->Ok_0.1.changes@) == changes
            },
        },
{
    if current_version > 0 && next_version <= current_version {
        return Err(StateTreeError::VersionMismatch);
    }
    let substate_changes = sort_changes(substate_changes);
    if current_version == 0 {
        let empty = TreeStore::new();
        let mut store = StagedTreeStore::new(&empty);
        assert(store.leaves_spec() =~= Seq::<LeafModel>::empty());
        assert(change_models(store.staged@) =~= Seq::<ChangeModel>::empty());
        let r = store.put_substate_changes(None, next_version, &substate_changes);
        proof {
            if r is Ok {
                assert(change_models(store.staged@) =~= change_models(substate_changes@));
            }
        }
        return match r {
            Ok(root) => Ok((root, store.into_diff())),
            Err(e) => Err(e),
        };
    }
    let mut store = StagedTreeStore::new(tx);
    let ghost pm = pending_models(pending_tree_diffs@);
    let mut diffs: Vec<StateHashTreeDiff> = Vec::new();
    let mut i: usize = 0;
    while i < pending_tree_diffs.len()
        invariant
            0 <= i <= pending_tree_diffs@.len(),
            pm == pending_models(pending_tree_diffs@),
            diff_models(diffs@) == pm.take(i as int),
        decreases pending_tree_diffs@.len() - i,
    {
        let d = &pending_tree_diffs[i].diff;
        let ghost before = diffs@;
        diffs.push(StateHashTreeDiff { version: d.version, changes: clone_changes(&d.changes) });
        assert(diff_models(diffs@) =~= diff_models(before).push(change_models(d.changes@)));
        assert(pm.take(i + 1) =~= pm.take(i as int).push(change_models(d.changes@)));
        i = i + 1;
    }
    assert(pm.take(i as int) =~= pm);
    match store.apply_ordered_diffs(&diffs) {
        Ok(()) => {},
        Err(e) => {
            return Err(e);
        },
    }
    let current = if current_version > 0 {
        Some(current_version)
    } else {
        None
    };
    match store.put_substate_changes(current, next_version, &substate_changes) {
        Ok(root) => Ok((root, store.into_diff())),
        Err(e) => Err(e),
    }
}

/// A copy of the changes.
fn clone_changes(changes: &Vec<SubstateTreeChange>) -> (r: Vec<SubstateTreeChange>)
    ensures
        change_models(r@) == change_models(changes@),
{
    let mut out: Vec<SubstateTreeChange> = Vec::new();
    let mut i: usize = 0;
    while i < changes.len()
        invariant
            0 <= i <= changes@.len(),
            change_models(out@) == change_models(changes@).take(i as int),
        decreases changes@.len() - i,
    {
        let ghost before = out@;
        out.push(changes[i].clone());
        assert(change_models(out@) =~= change_models(before).push(changes@[i as int]@));
        assert(change_models(changes@).take(i + 1) =~= change_models(changes@).take(i as int).push(
            changes@[i as int]@,
        ));
        i = i + 1;
    }
    assert(change_models(changes@).take(i as int) =~= change_models(changes@));
    out
}

/// A substate removed by a transaction: its key and the version it had.
#[derive(Debug, Clone, Copy)]
pub struct SubstateDown {
    pub id: u64,
    pub version: u32,
}

/// A substate written by a transaction: its key and its encoded value.
#[derive(Debug)]
pub struct SubstateUp {
    pub id: u64,
    pub value: Vec<u8>,
}

/// What a transaction did to the substates.
#[derive(Debug)]
pub struct SubstateDiff {
    pub down: Vec<SubstateDown>,
    pub up: Vec<SubstateUp>,
}

/// The tree changes of a substate diff: a deletion for each substate removed,
/// then an insertion of each substate written, with the hash of its value.
pub fn diff_to_substate_changes(diff: &SubstateDiff) -> (r: Vec<SubstateTreeChange>)
    ensures
        r@.len() == diff.down@.len() + diff.up@.len(),
        forall|i: int| 0 <= i < diff.down@.len() ==> (#[trigger] r@[i])@ == ChangeModel::Down(diff.down@[i].id),
        forall|j: int|
            0 <= j < diff.up@.len() ==> (#[trigger] r@[diff.down@.len() + j])@ == ChangeModel::Up(
                diff.up@[j].id,
                blake2b_256_of(diff.up@[j].value@),
            ),
{
    let mut out: Vec<SubstateTreeChange> = Vec::new();
    let mut i: usize = 0;
    while i < diff.down.len()
        invariant
            0 <= i <= diff.down@.len(),
            out@.len() == i,
            forall|k: int| 0 <= k < i ==> (#[trigger] out@[k])@ == ChangeModel::Down(diff.down@[k].id),
        decreases diff.down@.len() - i,
    {
        out.push(SubstateTreeChange::Down { id: diff.down[i].id });
        i = i + 1;
    }
    let mut j: usize = 0;
    while j < diff.up.len()
        invariant
            0 <= j <= diff.up@.len(),
            out@.len() == diff.down@.len() + j,
            forall|k: int| 0 <= k < diff.down@.len() ==> (#[trigger] out@[k])@ == ChangeModel::Down(diff.down@[k].id),
            forall|k: int|
                0 <= k < j ==> (#[trigger] out@[diff.down@.len() + k])@ == ChangeModel::Up(
                    diff.up@[k].id,
                    blake2b_256_of(diff.up@[k].value@),
                ),
        decreases diff.up@.len() - j,
    {
        let up = &diff.up[j];
        let value_hash = blake2b_256(&up.value);
        out.push(SubstateTreeChange::Up { id: up.id, value_hash });
        j = j + 1;
    }
    out
}

} // verus!
