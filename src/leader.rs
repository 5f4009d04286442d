use vstd::prelude::*;

verus! {

/// Round-robin leader of `committee` at `height`: the member at position
/// `height mod |committee|`.
pub open spec fn leader_of(committee: Seq<Vec<u8>>, height: u64) -> Seq<u8>
    recommends
        committee.len() > 0,
{
    committee[(height as int) % committee.len() as int]@
}

/// Leader selection that rotates through a (stably sorted) committee one
/// height at a time.
#[derive(Clone, Copy, Debug)]
pub struct RoundRobinLeaderStrategy;

impl RoundRobinLeaderStrategy {
    pub fn new() -> (r: Self) {
        RoundRobinLeaderStrategy
    }

    /// The public key of the leader of `committee` at `height`. The committee
    /// is taken in the order given: callers pass it in its stable sorted order,
    /// as the epoch manager hands it out.
    pub fn get_leader_public_key(&self, committee: &Vec<Vec<u8>>, height: u64) -> (r: Vec<u8>)
        requires
            committee@.len() > 0,
        ensures
            r@ == leader_of(committee@, height),
    {
        let idx = (height % (committee.len() as u64)) as usize;
        committee[idx].clone()
    }
}

/// The leader is a member of the committee. (It is a function of the committee
/// and the height, so the same inputs always give the same leader.)
pub proof fn lemma_leader_in_committee(committee: Seq<Vec<u8>>, height: u64)
    requires
        committee.len() > 0,
    ensures
        exists|i: int| 0 <= i < committee.len() && committee[i]@ == leader_of(committee, height),
{
    let i = (height as int) % committee.len() as int;
    assert(0 <= i < committee.len());
    assert(committee[i]@ == leader_of(committee, height));
}

} // verus!
