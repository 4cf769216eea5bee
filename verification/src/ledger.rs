//! Model of the canonical chain state the consensus core reads and advances.
//!
//! The real ledger validates and stores blocks in its own crates; the
//! consensus rules only read its head values and the set of identifiers it
//! has finalized, and hand it blocks to append. This model holds exactly
//! those values and states the append contract the core relies on: which
//! blocks are refused, with which error, and how the head moves on success.

use crate::block::Block;
use crate::entries::{elems_distinct, keys_distinct, vec_all_distinct_u64, vec_contains_u64};
use crate::errors::LedgerError;
use vstd::prelude::*;

verus! {

/// The chain head state and the identifiers finalized so far.
#[derive(Clone, Debug)]
pub struct Ledger {
    /// Height of the latest block.
    pub height: u32,
    /// Round of the latest block.
    pub round: u64,
    /// Epoch number of the latest block.
    pub epoch_number: u32,
    /// Current proof target.
    pub proof_target: u64,
    /// Current coinbase target.
    pub coinbase_target: u64,
    /// Identifiers of every finalized transaction.
    pub finalized_transaction_ids: Vec<u64>,
    /// Commitments of every finalized solution.
    pub finalized_solution_ids: Vec<u64>,
}

impl Ledger {
    /// True iff a transaction with this identifier is finalized.
    pub open spec fn spec_is_finalized_transaction(self, id: u64) -> bool {
        self.finalized_transaction_ids@.contains(id)
    }

    /// True iff a solution with this commitment is finalized.
    pub open spec fn spec_is_finalized_solution(self, commitment: u64) -> bool {
        self.finalized_solution_ids@.contains(commitment)
    }

    /// The error the ledger answers a candidate block with, or `None` when
    /// the block is appendable. The checks run in this order: height, round,
    /// epoch, repeated or finalized transactions, repeated or finalized
    /// solutions.
    pub open spec fn spec_append_error(self, b: Block) -> Option<LedgerError> {
        if b.height as int != self.height as int + 1 {
            Some(LedgerError::InvalidHeight)
        } else if b.round <= self.round {
            Some(LedgerError::InvalidRound)
        } else if b.epoch_number != self.epoch_number && b.epoch_number as int != self.epoch_number
            as int + 1 {
            Some(LedgerError::InvalidEpoch)
        } else if !elems_distinct(b.transaction_ids@) {
            Some(LedgerError::RepeatedTransactionInBlock)
        } else if exists|i: int|
            0 <= i < b.transaction_ids@.len() && self.spec_is_finalized_transaction(
                b.transaction_ids@[i],
            ) {
            Some(LedgerError::DuplicateTransaction)
        } else if !keys_distinct(b.solutions@) {
            Some(LedgerError::RepeatedSolutionInBlock)
        } else if exists|i: int|
            0 <= i < b.solutions@.len() && self.spec_is_finalized_solution(b.solutions@[i].0) {
            Some(LedgerError::DuplicateSolution)
        } else {
            None
        }
    }

    /// True iff the ledger accepts the block.
    pub open spec fn spec_can_append(self, b: Block) -> bool {
        self.spec_append_error(b) is None
    }

    /// Returns a ledger whose head holds the given values and which has
    /// finalized nothing.
    pub fn new(height: u32, round: u64, epoch_number: u32, proof_target: u64, coinbase_target: u64)
        -> (r: Ledger)
        ensures
            r.height == height,
            r.round == round,
            r.epoch_number == epoch_number,
            r.proof_target == proof_target,
            r.coinbase_target == coinbase_target,
            r.finalized_transaction_ids@ == Seq::<u64>::empty(),
            r.finalized_solution_ids@ == Seq::<u64>::empty(),
    {
        Ledger {
            height,
            round,
            epoch_number,
            proof_target,
            coinbase_target,
            finalized_transaction_ids: Vec::new(),
            finalized_solution_ids: Vec::new(),
        }
    }

    /// Returns the latest block height.
    pub fn latest_height(&self) -> (r: u32)
        ensures
            r == self.height,
    {
        self.height
    }

    /// Returns the latest round.
    pub fn latest_round(&self) -> (r: u64)
        ensures
            r == self.round,
    {
        self.round
    }

    /// Returns the latest epoch number.
    pub fn latest_epoch_number(&self) -> (r: u32)
        ensures
            r == self.epoch_number,
    {
        self.epoch_number
    }

    /// Returns the latest proof target.
    pub fn latest_proof_target(&self) -> (r: u64)
        ensures
            r == self.proof_target,
    {
        self.proof_target
    }

    /// Returns the latest coinbase target.
    pub fn latest_coinbase_target(&self) -> (r: u64)
        ensures
            r == self.coinbase_target,
    {
        self.coinbase_target
    }

    /// Whether a transaction with this identifier is finalized.
    pub fn contains_transaction_id(&self, id: u64) -> (r: bool)
        ensures
            r == self.spec_is_finalized_transaction(id),
    {
        vec_contains_u64(&self.finalized_transaction_ids, id)
    }

    /// Whether a solution with this commitment is finalized.
    pub fn contains_solution_id(&self, commitment: u64) -> (r: bool)
        ensures
            r == self.spec_is_finalized_solution(commitment),
    {
        vec_contains_u64(&self.finalized_solution_ids, commitment)
    }

    /// Appends the block to the chain. The call succeeds exactly when the
    /// block passes the append checks; on failure the ledger is unchanged
    /// and the answer names the first check that failed.
    pub fn advance_to_next_block(&mut self, block: &Block) -> (r: Result<(), LedgerError>)
        ensures
            r is Ok <==> old(self).spec_can_append(*block),
            r matches Err(e) ==> Some(e) == old(self).spec_append_error(*block),
            r is Err ==> *final(self) == *old(self),
            r is Ok ==> {
                &&& final(self).height == block.height
                &&& final(self).round == block.round
                &&& final(self).epoch_number == block.epoch_number
                &&& final(self).proof_target == block.proof_target
                &&& final(self).coinbase_target == block.coinbase_target
                &&& final(self).finalized_transaction_ids@ == old(self).finalized_transaction_ids@ + block.transaction_ids@
                &&& final(self).finalized_solution_ids@ == old(self).finalized_solution_ids@
                    + block.spec_solution_commitments()
            },
    {
        if !(self.height < u32::MAX && block.height == self.height + 1) {
            return Err(LedgerError::InvalidHeight);
        }
        if block.round <= self.round {
            return Err(LedgerError::InvalidRound);
        }
        let epoch_ok = block.epoch_number == self.epoch_number || (self.epoch_number < u32::MAX
            && block.epoch_number == self.epoch_number + 1);
        if !epoch_ok {
            return Err(LedgerError::InvalidEpoch);
        }
        if !vec_all_distinct_u64(&block.transaction_ids) {
            return Err(LedgerError::RepeatedTransactionInBlock);
        }
        if self.any_finalized_transaction(&block.transaction_ids) {
            return Err(LedgerError::DuplicateTransaction);
        }
        let commitments = crate::entries::entry_keys(&block.solutions);
        proof {
            crate::entries::lemma_keys_of_distinct(block.solutions@);
        }
        if !vec_all_distinct_u64(&commitments) {
            return Err(LedgerError::RepeatedSolutionInBlock);
        }
        if self.any_finalized_solution(&block.solutions) {
            return Err(LedgerError::DuplicateSolution);
        }
        self.height = block.height;
        self.round = block.round;
        self.epoch_number = block.epoch_number;
        self.proof_target = block.proof_target;
        self.coinbase_target = block.coinbase_target;
        let ghost fin_txs = self.finalized_transaction_ids@;
        let ghost fin_sols = self.finalized_solution_ids@;
        let ghost head = *self;
        let mut i: usize = 0;
        while i < block.transaction_ids.len()
            invariant
                0 <= i <= block.transaction_ids@.len(),
                self.finalized_transaction_ids@ == fin_txs + block.transaction_ids@.take(i as int),
                self.finalized_solution_ids@ == fin_sols,
                self.height == head.height,
                self.round == head.round,
                self.epoch_number == head.epoch_number,
                self.proof_target == head.proof_target,
                self.coinbase_target == head.coinbase_target,
            decreases block.transaction_ids@.len() - i,
        {
            self.finalized_transaction_ids.push(block.transaction_ids[i]);
            assert(self.finalized_transaction_ids@ =~= fin_txs + block.transaction_ids@.take(
                i + 1,
            ));
            i += 1;
        }
        assert(fin_txs + block.transaction_ids@.take(block.transaction_ids@.len() as int)
            =~= fin_txs + block.transaction_ids@);
        let ghost all_txs = self.finalized_transaction_ids@;
        let mut j: usize = 0;
        while j < commitments.len()
            invariant
                0 <= j <= commitments@.len(),
                self.finalized_solution_ids@ == fin_sols + commitments@.take(j as int),
                self.finalized_transaction_ids@ == all_txs,
                self.height == head.height,
                self.round == head.round,
                self.epoch_number == head.epoch_number,
                self.proof_target == head.proof_target,
                self.coinbase_target == head.coinbase_target,
            decreases commitments@.len() - j,
        {
            self.finalized_solution_ids.push(commitments[j]);
            assert(self.finalized_solution_ids@ =~= fin_sols + commitments@.take(j + 1));
            j += 1;
        }
        assert(fin_sols + commitments@.take(commitments@.len() as int) =~= fin_sols
            + commitments@);
        Ok(())
    }

    /// Whether any of the given transaction identifiers is finalized.
    fn any_finalized_transaction(&self, ids: &Vec<u64>) -> (r: bool)
        ensures
            r == exists|i: int|
                0 <= i < ids@.len() && self.spec_is_finalized_transaction(ids@[i]),
    {
        let mut i: usize = 0;
        while i < ids.len()
            invariant
                0 <= i <= ids@.len(),
                forall|j: int| 0 <= j < i ==> !self.spec_is_finalized_transaction(ids@[j]),
            decreases ids@.len() - i,
        {
            if vec_contains_u64(&self.finalized_transaction_ids, ids[i]) {
                return true;
            }
            i += 1;
        }
        false
    }

    /// Whether any of the given solutions' commitments is finalized.
    fn any_finalized_solution(&self, solutions: &Vec<(u64, u64)>) -> (r: bool)
        ensures
            r == exists|i: int|
                0 <= i < solutions@.len() && self.spec_is_finalized_solution(solutions@[i].0),
    {
        let mut i: usize = 0;
        while i < solutions.len()
            invariant
                0 <= i <= solutions@.len(),
                forall|j: int| 0 <= j < i ==> !self.spec_is_finalized_solution(solutions@[j].0),
            decreases solutions@.len() - i,
        {
            if vec_contains_u64(&self.finalized_solution_ids, solutions[i].0) {
                return true;
            }
            i += 1;
        }
        false
    }
}

} // verus!
