//! Consensus state caches for a Monero-compatible node: the hard-fork state
//! machine and the block-weight cache.

pub mod block;
pub mod error;
pub mod hardforks;
pub mod network;
