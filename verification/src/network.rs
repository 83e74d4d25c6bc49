use vstd::prelude::*;

verus! {

/// The Monero networks a node can follow.
#[derive(Debug, Clone, Copy, PartialEq, Eq, Structural)]
pub enum Network {
    Mainnet,
    Testnet,
    Stagenet,
}

} // verus!
