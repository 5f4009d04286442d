use vstd::prelude::*;

verus! {

/// The wiring of the validator's consensus: round-robin leaders
/// ([`crate::leader::RoundRobinLeaderStrategy`]), the in-memory block tree
/// ([`crate::store::BlockStore`]) and the staged state tree
/// ([`crate::state_tree::StagedTreeStore`]).
#[derive(Clone, Copy, Debug)]
pub struct TariConsensusSpec;

} // verus!
