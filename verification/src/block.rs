//! Plain-value models of the chain data the consensus core reads.
//!
//! The real transaction, solution and block types live in the ledger's own
//! crates and are opaque to this library; what the consensus rules read of
//! them — content-derived identifiers, targets, heights — is held here as
//! plain values.

use crate::entries::keys_of;
use vstd::prelude::*;

verus! {

/// An unconfirmed transaction, reduced to its content-derived identifier.
#[derive(Clone, Copy, Debug, PartialEq, Eq, Structural)]
pub struct Transaction {
    /// The transaction identifier.
    pub id: u64,
}

/// An unconfirmed prover solution: its commitment and the proof target it
/// contributes.
#[derive(Clone, Copy, Debug, PartialEq, Eq, Structural)]
pub struct ProverSolution {
    /// The solution's content-derived commitment.
    pub commitment: u64,
    /// The proof target this solution contributes.
    pub target: u64,
}

/// A block candidate: the header values the consensus rules read, plus the
/// identifiers of the work it carries.
#[derive(Clone, Debug)]
pub struct Block {
    /// The block's height.
    pub height: u32,
    /// The round the block was produced in.
    pub round: u64,
    /// The epoch the block belongs to.
    pub epoch_number: u32,
    /// The proof target the chain holds after this block.
    pub proof_target: u64,
    /// The coinbase target the chain holds after this block.
    pub coinbase_target: u64,
    /// Identifiers of the transactions the block carries.
    pub transaction_ids: Vec<u64>,
    /// The `(commitment, target)` pairs of the solutions the block carries.
    pub solutions: Vec<(u64, u64)>,
}

impl Block {
    /// True iff the block carries a coinbase payout, that is, at least one
    /// prover solution.
    pub open spec fn spec_has_coinbase(self) -> bool {
        self.solutions@.len() > 0
    }

    /// The commitments of the block's solutions, in block order.
    pub open spec fn spec_solution_commitments(self) -> Seq<u64> {
        keys_of(self.solutions@)
    }

    /// Returns the block's height.
    pub fn height(&self) -> (r: u32)
        ensures
            r == self.height,
    {
        self.height
    }

    /// Returns the block's epoch number.
    pub fn epoch_number(&self) -> (r: u32)
        ensures
            r == self.epoch_number,
    {
        self.epoch_number
    }

    /// Whether the block carries a coinbase payout.
    pub fn has_coinbase(&self) -> (r: bool)
        ensures
            r == self.spec_has_coinbase(),
    {
        self.solutions.len() > 0
    }
}

} // verus!
