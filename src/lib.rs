//! Consensus core of a sharded validator network: leader rotation, dummy-block
//! synthesis, the block tree and its commit rule, catch-up sync responses, the
//! staged state tree, and confidential output statements.
mod crypto;
pub mod base_node;
pub mod block;
pub mod confidential;
pub mod consensus;
pub mod dummy;
pub mod hashing;
pub mod leader;
pub mod pacemaker;
pub mod state_tree;
pub mod store;
pub mod sync;
pub mod watcher;
