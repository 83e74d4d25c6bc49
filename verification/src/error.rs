use vstd::prelude::*;

verus! {

/// Errors that the consensus rules report to their caller.
#[derive(Debug, Clone, Copy)]
pub enum ConsensusError {
    /// A block header carries a major version that is no known hard fork.
    InvalidHardForkVersion(&'static str),
}

} // verus!
