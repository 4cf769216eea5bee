//! Error taxonomy of the consensus core.
//!
//! Initialization faults are fatal to node startup; protocol faults mark
//! lifecycle bugs (a submission before the sender is bound, a duplicate
//! bind); proposal and acceptance errors are recoverable by the caller.

use vstd::prelude::*;

verus! {

/// Reason the committee bootstrap refuses a member set.
#[derive(Clone, Copy, Debug, PartialEq, Eq, Structural)]
pub enum CommitteeError {
    /// The member set is empty.
    Empty,
    /// Two members share an address.
    DuplicateMember,
    /// A member's stake is below the minimum stake threshold.
    StakeBelowMinimum,
}

/// Reason the ledger refuses to append a candidate block.
#[derive(Clone, Copy, Debug, PartialEq, Eq, Structural)]
pub enum LedgerError {
    /// The block's height is not the successor of the ledger's height.
    InvalidHeight,
    /// The block's round does not exceed the ledger's round.
    InvalidRound,
    /// The block's epoch number is neither the ledger's nor its successor.
    InvalidEpoch,
    /// The block lists the same transaction twice.
    RepeatedTransactionInBlock,
    /// A transaction in the block is already finalized.
    DuplicateTransaction,
    /// The block lists the same solution commitment twice.
    RepeatedSolutionInBlock,
    /// A solution in the block is already finalized.
    DuplicateSolution,
}

/// Error surface of the consensus root.
#[derive(Clone, Copy, Debug, PartialEq, Eq, Structural)]
pub enum ConsensusError {
    /// Committee bootstrap failed during construction.
    Initialization(CommitteeError),
    /// `run` was called while the submission sender was already bound.
    SenderAlreadySet,
    /// A submission was made before `run` bound the submission sender.
    SenderUnset,
    /// The ordering engine's intake or completion channel is closed.
    ChannelClosed,
    /// The ordering engine resolved the submission as rejected.
    EngineRejected,
    /// No pending work is available to propose a block from.
    EmptyProposal,
    /// The chain height cannot be advanced any further.
    HeightExhausted,
    /// The round counter cannot be advanced any further.
    RoundExhausted,
    /// The ledger refused to append the block.
    Ledger(LedgerError),
}

} // verus!
