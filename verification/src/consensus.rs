//! The consensus root: lifecycle, submission, proposal and acceptance.
//!
//! A `Consensus` owns the ledger state model, a model of the BFT ordering
//! engine, the memory pool, the one-time submission sender binding, and the
//! registry of background tasks. The asynchronous plumbing — channels,
//! completion signals, task spawning — lives with the caller; every rule
//! that decides what those calls may do is here, verified: when a
//! submission is admitted, what a proposed block holds, and how an accepted
//! block prunes the pool.

use crate::block::{Block, ProverSolution, Transaction};
use crate::committee::{Committee, CommitteeSource};
use crate::entries::{keys_of, sum_values_at_least};
use crate::errors::ConsensusError;
use crate::ledger::Ledger;
use crate::pool::{spec_solution_valid, MemoryPool};
use vstd::prelude::*;

verus! {

/// The garbage-collection round window the ordering engine's storage is
/// bounded by: entries older than this many rounds are not retained.
pub const MAX_GC_ROUNDS: u64 = 50;

/// Model of the BFT ordering engine handle: its configuration and whether
/// its run loop has been started.
pub struct Bft {
    /// The validator identity the engine is bound to.
    pub account: u64,
    /// The committee the engine's storage was built from.
    pub committee: Committee,
    /// The storage's garbage-collection round window.
    pub gc_rounds: u64,
    /// Whether the engine's run loop is started.
    pub running: bool,
}

impl Bft {
    /// Binds a stopped engine to the given identity, committee and storage
    /// window.
    pub fn new(account: u64, committee: Committee, gc_rounds: u64) -> (r: Bft)
        ensures
            r.account == account,
            r.committee == committee,
            r.gc_rounds == gc_rounds,
            !r.running,
    {
        Bft { account, committee, gc_rounds, running: false }
    }
}

/// The resolution the ordering engine gives one forwarded submission: the
/// value its completion signal carried, or a closed channel.
#[derive(Clone, Copy, Debug, PartialEq, Eq, Structural)]
pub enum EngineOutcome {
    /// The engine durably accepted the submission.
    Accepted,
    /// The engine rejected the submission as invalid or duplicate.
    Rejected,
    /// The intake or completion channel was closed.
    ChannelClosed,
}

/// The unconfirmed solutions left after an accepted block prunes the pool:
/// an epoch rollover clears everything, a coinbase payout in an unchanged
/// epoch clears what the new ledger state invalidates, and otherwise
/// nothing is pruned.
pub open spec fn spec_solutions_after_advance(
    pool_solutions: Seq<(u64, u64)>,
    prior_epoch: u32,
    b: Block,
    new_ledger: Ledger,
) -> Seq<(u64, u64)> {
    if b.epoch_number > prior_epoch {
        Seq::empty()
    } else if b.spec_has_coinbase() {
        pool_solutions.filter(|p: (u64, u64)| spec_solution_valid(new_ledger, p.0, p.1))
    } else {
        pool_solutions
    }
}

/// The consensus root aggregate.
pub struct Consensus {
    /// The chain state model.
    pub ledger: Ledger,
    /// The ordering engine model.
    pub bft: Bft,
    /// The one-time submission sender: the caller's name for the engine's
    /// intake endpoint, bound exactly once by `run`.
    pub primary_sender: Option<u64>,
    /// The pending-work admission pool.
    pub memory_pool: MemoryPool,
    /// The caller's names for the registered background tasks, aborted on
    /// shutdown.
    pub handles: Vec<u64>,
}

impl Consensus {
    /// Well-formed: the pool and the committee keep their invariants.
    pub open spec fn wf(self) -> bool {
        &&& self.memory_pool.wf()
        &&& self.bft.committee.wf()
    }

    /// The candidate transaction identifiers a proposal would select now.
    pub open spec fn spec_candidate_transactions(self) -> Seq<u64> {
        self.memory_pool.spec_candidate_transactions(self.ledger)
    }

    /// The candidate solutions a proposal would select now.
    pub open spec fn spec_candidate_solutions(self) -> Seq<(u64, u64)> {
        self.memory_pool.spec_candidate_solutions(
            self.ledger,
            self.ledger.proof_target,
            self.ledger.coinbase_target,
        )
    }

    /// The cumulative proof target the pooled solutions contribute against
    /// the ledger's latest proof target.
    pub open spec fn spec_cumulative_proof_target(self) -> int {
        sum_values_at_least(self.memory_pool.spec_solutions(), self.ledger.proof_target)
    }

    /// True iff the pooled solutions' cumulative proof target reaches the
    /// ledger's latest coinbase target.
    pub open spec fn spec_coinbase_target_met(self) -> bool {
        self.spec_cumulative_proof_target() >= self.ledger.coinbase_target
    }

    /// Initializes a new consensus instance: a committee valid from the
    /// round after the ledger's latest, a stopped engine bound to it, an
    /// empty pool, and no submission sender. Fails exactly when a
    /// discovered member set fails the committee checks; the development
    /// bootstrap cannot fail.
    pub fn new(account: u64, ledger: Ledger, source: CommitteeSource) -> (r: Result<
        Consensus,
        ConsensusError,
    >)
        requires
            ledger.round < u64::MAX,
        ensures
            source is RandomBootstrap ==> r is Ok,
            r is Err ==> (match source {
                CommitteeSource::DiscoveredBootstrap(m) => (match Committee::spec_new_error(m@) {
                    Some(e) => r == Err::<Consensus, ConsensusError>(
                        ConsensusError::Initialization(e),
                    ),
                    None => false,
                }),
                CommitteeSource::RandomBootstrap => false,
            }),
            r matches Ok(c) ==> {
                &&& c.wf()
                &&& c.ledger == ledger
                &&& c.memory_pool.spec_transactions() == Seq::<(u64, u64)>::empty()
                &&& c.memory_pool.spec_solutions() == Seq::<(u64, u64)>::empty()
                &&& c.primary_sender is None
                &&& c.handles@ == Seq::<u64>::empty()
                &&& !c.bft.running
                &&& c.bft.account == account
                &&& c.bft.gc_rounds == MAX_GC_ROUNDS
                &&& c.bft.committee.spec_starting_round() == ledger.round + 1
                &&& (source matches CommitteeSource::DiscoveredBootstrap(m)
                    ==> c.bft.committee.spec_members() == m@)
            },
    {
        let starting_round = self_next_round(&ledger);
        let committee = match source {
            CommitteeSource::RandomBootstrap => Committee::random_bootstrap(starting_round),
            CommitteeSource::DiscoveredBootstrap(m) => {
                match Committee::new(starting_round, m) {
                    Ok(c) => c,
                    Err(e) => {
                        return Err(ConsensusError::Initialization(e));
                    },
                }
            },
        };
        let bft = Bft::new(account, committee, MAX_GC_ROUNDS);
        Ok(
            Consensus {
                ledger,
                bft,
                primary_sender: None,
                memory_pool: MemoryPool::new(),
                handles: Vec::new(),
            },
        )
    }

    /// Starts the consensus instance: binds the one-time submission sender,
    /// starts the engine's run loop, and registers the committed-subdag
    /// consumer task under the caller's name for it. Binding twice is a
    /// lifecycle fault and leaves everything unchanged.
    pub fn run(&mut self, primary_sender: u64, consumer_task: u64) -> (r: Result<
        (),
        ConsensusError,
    >)
        ensures
            old(self).primary_sender is Some ==> r == Err::<(), ConsensusError>(
                ConsensusError::SenderAlreadySet,
            ) && *final(self) == *old(self),
            old(self).primary_sender is None ==> {
                &&& r is Ok
                &&& final(self).primary_sender == Some(primary_sender)
                &&& final(self).bft.running
                &&& final(self).bft.account == old(self).bft.account
                &&& final(self).bft.committee == old(self).bft.committee
                &&& final(self).bft.gc_rounds == old(self).bft.gc_rounds
                &&& final(self).handles@ == old(self).handles@.push(consumer_task)
                &&& final(self).ledger == old(self).ledger
                &&& final(self).memory_pool == old(self).memory_pool
            },
    {
        if self.primary_sender.is_some() {
            return Err(ConsensusError::SenderAlreadySet);
        }
        self.primary_sender = Some(primary_sender);
        self.bft.running = true;
        self.start_handlers(consumer_task);
        Ok(())
    }

    /// Registers the committed-subdag consumer task.
    fn start_handlers(&mut self, consumer_task: u64)
        ensures
            final(self).handles@ == old(self).handles@.push(consumer_task),
            final(self).ledger == old(self).ledger,
            final(self).bft == old(self).bft,
            final(self).primary_sender == old(self).primary_sender,
            final(self).memory_pool == old(self).memory_pool,
    {
        self.spawn(consumer_task);
    }

    /// Registers a long-running background task under the caller's name
    /// for it; the task is aborted on shutdown.
    pub fn spawn(&mut self, task: u64)
        ensures
            final(self).handles@ == old(self).handles@.push(task),
            final(self).ledger == old(self).ledger,
            final(self).bft == old(self).bft,
            final(self).primary_sender == old(self).primary_sender,
            final(self).memory_pool == old(self).memory_pool,
    {
        self.handles.push(task);
    }

    /// Shuts the instance down: the engine stops first, so no new commits
    /// are produced, and every registered background task is then dropped
    /// from the registry for the caller to abort.
    pub fn shut_down(&mut self)
        ensures
            !final(self).bft.running,
            final(self).handles@ == Seq::<u64>::empty(),
            final(self).bft.account == old(self).bft.account,
            final(self).bft.committee == old(self).bft.committee,
            final(self).bft.gc_rounds == old(self).bft.gc_rounds,
            final(self).ledger == old(self).ledger,
            final(self).primary_sender == old(self).primary_sender,
            final(self).memory_pool == old(self).memory_pool,
    {
        self.bft.running = false;
        self.handles = Vec::new();
    }

    /// Returns the ledger state model.
    pub fn ledger(&self) -> (r: &Ledger)
        ensures
            *r == self.ledger,
    {
        &self.ledger
    }

    /// Returns the ordering engine model.
    pub fn bft(&self) -> (r: &Bft)
        ensures
            *r == self.bft,
    {
        &self.bft
    }

    /// Returns the memory pool.
    pub fn memory_pool(&self) -> (r: &MemoryPool)
        ensures
            *r == self.memory_pool,
    {
        &self.memory_pool
    }

    /// Returns the bound submission sender, or the read-before-bind fault.
    pub fn primary_sender(&self) -> (r: Result<u64, ConsensusError>)
        ensures
            r == match self.primary_sender {
                Some(s) => Ok::<u64, ConsensusError>(s),
                None => Err::<u64, ConsensusError>(ConsensusError::SenderUnset),
            },
    {
        match self.primary_sender {
            Some(s) => Ok(s),
            None => Err(ConsensusError::SenderUnset),
        }
    }

    /// The number of unconfirmed transmissions — transactions and
    /// solutions together, saturating at the machine limit.
    pub fn num_unconfirmed_transmissions(&self) -> (n: usize)
        ensures
            self.memory_pool.spec_transactions().len() + self.memory_pool.spec_solutions().len()
                <= usize::MAX ==> n == self.memory_pool.spec_transactions().len()
                + self.memory_pool.spec_solutions().len(),
            self.memory_pool.spec_transactions().len() + self.memory_pool.spec_solutions().len()
                > usize::MAX ==> n == usize::MAX,
    {
        let t = self.memory_pool.num_unconfirmed_transactions();
        let s = self.memory_pool.num_unconfirmed_solutions();
        if t <= usize::MAX - s {
            t + s
        } else {
            usize::MAX
        }
    }

    /// The identifiers of the unconfirmed transmissions: the transaction
    /// identifiers, then the solution commitments, each in submission
    /// order.
    pub fn unconfirmed_transmissions(&self) -> (r: Vec<u64>)
        ensures
            r@ == keys_of(self.memory_pool.spec_transactions()) + keys_of(
                self.memory_pool.spec_solutions(),
            ),
    {
        let mut out = self.memory_pool.unconfirmed_transaction_ids();
        let ghost tx_keys = out@;
        let sols = self.memory_pool.unconfirmed_solution_entries();
        let sol_keys = crate::entries::entry_keys(&sols);
        let mut i: usize = 0;
        while i < sol_keys.len()
            invariant
                0 <= i <= sol_keys@.len(),
                out@ == tx_keys + sol_keys@.take(i as int),
            decreases sol_keys@.len() - i,
        {
            out.push(sol_keys[i]);
            assert(out@ =~= tx_keys + sol_keys@.take(i + 1));
            i += 1;
        }
        assert(tx_keys + sol_keys@.take(sol_keys@.len() as int) =~= tx_keys + sol_keys@);
        out
    }

    /// Forwards an unconfirmed transaction and reports the engine's single
    /// resolution of it. A submission before `run` has bound the sender is
    /// the read-before-bind fault and changes nothing; an accepted
    /// submission enters the pool; a rejected one or a closed channel
    /// changes nothing.
    pub fn add_unconfirmed_transaction(
        &mut self,
        transaction: Transaction,
        outcome: EngineOutcome,
    ) -> (r: Result<(), ConsensusError>)
        requires
            old(self).wf(),
        ensures
            final(self).wf(),
            old(self).primary_sender is None ==> r == Err::<(), ConsensusError>(
                ConsensusError::SenderUnset,
            ) && *final(self) == *old(self),
            old(self).primary_sender is Some && outcome == EngineOutcome::Rejected ==> r == Err::<
                (),
                ConsensusError,
            >(ConsensusError::EngineRejected) && *final(self) == *old(self),
            old(self).primary_sender is Some && outcome == EngineOutcome::ChannelClosed ==> r
                == Err::<(), ConsensusError>(ConsensusError::ChannelClosed) && *final(self)
                == *old(self),
            old(self).primary_sender is Some && outcome == EngineOutcome::Accepted ==> {
                &&& r is Ok
                &&& final(self).memory_pool.spec_solutions() == old(self).memory_pool.spec_solutions()
                &&& crate::entries::seq_has_key(
                    old(self).memory_pool.spec_transactions(),
                    transaction.id,
                ) ==> final(self).memory_pool.spec_transactions() == old(self).memory_pool.spec_transactions()
                &&& !crate::entries::seq_has_key(
                    old(self).memory_pool.spec_transactions(),
                    transaction.id,
                ) ==> final(self).memory_pool.spec_transactions() == old(self).memory_pool.spec_transactions().push((transaction.id, transaction.id))
                &&& final(self).ledger == old(self).ledger
                &&& final(self).bft == old(self).bft
                &&& final(self).primary_sender == old(self).primary_sender
                &&& final(self).handles@ == old(self).handles@
            },
    {
        if self.primary_sender.is_none() {
            return Err(ConsensusError::SenderUnset);
        }
        match outcome {
            EngineOutcome::Accepted => {
                self.memory_pool.insert_unconfirmed_transaction(&transaction);
                Ok(())
            },
            EngineOutcome::Rejected => Err(ConsensusError::EngineRejected),
            EngineOutcome::ChannelClosed => Err(ConsensusError::ChannelClosed),
        }
    }

    /// Forwards an unconfirmed solution and reports the engine's single
    /// resolution of it; the same rules as for a transaction.
    pub fn add_unconfirmed_solution(
        &mut self,
        solution: ProverSolution,
        outcome: EngineOutcome,
    ) -> (r: Result<(), ConsensusError>)
        requires
            old(self).wf(),
        ensures
            final(self).wf(),
            old(self).primary_sender is None ==> r == Err::<(), ConsensusError>(
                ConsensusError::SenderUnset,
            ) && *final(self) == *old(self),
            old(self).primary_sender is Some && outcome == EngineOutcome::Rejected ==> r == Err::<
                (),
                ConsensusError,
            >(ConsensusError::EngineRejected) && *final(self) == *old(self),
            old(self).primary_sender is Some && outcome == EngineOutcome::ChannelClosed ==> r
                == Err::<(), ConsensusError>(ConsensusError::ChannelClosed) && *final(self)
                == *old(self),
            old(self).primary_sender is Some && outcome == EngineOutcome::Accepted ==> {
                &&& r is Ok
                &&& final(self).memory_pool.spec_transactions() == old(self).memory_pool.spec_transactions()
                &&& !crate::entries::seq_has_key(
                    old(self).memory_pool.spec_solutions(),
                    solution.commitment,
                ) ==> final(self).memory_pool.spec_solutions() == old(self).memory_pool.spec_solutions().push((solution.commitment, solution.target))
                &&& forall|i: int|
                    0 <= i < old(self).memory_pool.spec_solutions().len() && old(self).memory_pool.spec_solutions()[i].0 == solution.commitment ==> final(self).memory_pool.spec_solutions() == old(self).memory_pool.spec_solutions().update(
                        i,
                        (solution.commitment, solution.target),
                    )
                &&& final(self).ledger == old(self).ledger
                &&& final(self).bft == old(self).bft
                &&& final(self).primary_sender == old(self).primary_sender
                &&& final(self).handles@ == old(self).handles@
            },
    {
        if self.primary_sender.is_none() {
            return Err(ConsensusError::SenderUnset);
        }
        match outcome {
            EngineOutcome::Accepted => {
                self.memory_pool.insert_unconfirmed_solution(&solution);
                Ok(())
            },
            EngineOutcome::Rejected => Err(ConsensusError::EngineRejected),
            EngineOutcome::ChannelClosed => Err(ConsensusError::ChannelClosed),
        }
    }

    /// Whether the coinbase target is met: recomputes the cumulative proof
    /// target from the current pool against the ledger's latest proof
    /// target and compares it to the latest coinbase target. A pure query —
    /// with no intervening pool or ledger change, two calls return the same
    /// verdict.
    pub fn is_coinbase_target_met(&self) -> (r: bool)
        ensures
            r == self.spec_coinbase_target_met(),
    {
        let latest_proof_target = self.ledger.latest_proof_target();
        let cumulative_proof_target = self.memory_pool.candidate_coinbase_target(
            latest_proof_target,
        );
        let latest_coinbase_target = self.ledger.latest_coinbase_target();
        cumulative_proof_target >= latest_coinbase_target as u128
    }

    /// Returns a candidate for the next block: the candidate transactions
    /// and solutions of the current pool against the current ledger state,
    /// under a header one height and one round ahead. Pure — no state is
    /// mutated, so a candidate may be proposed speculatively and discarded.
    /// Fails exactly when the chain counters are exhausted or no candidate
    /// work exists.
    pub fn propose_next_block(&self) -> (r: Result<Block, ConsensusError>)
        requires
            self.wf(),
        ensures
            self.ledger.height == u32::MAX ==> r == Err::<Block, ConsensusError>(
                ConsensusError::HeightExhausted,
            ),
            self.ledger.height < u32::MAX && self.ledger.round == u64::MAX ==> r == Err::<
                Block,
                ConsensusError,
            >(ConsensusError::RoundExhausted),
            self.ledger.height < u32::MAX && self.ledger.round < u64::MAX
                && self.spec_candidate_transactions().len() == 0
                && self.spec_candidate_solutions().len() == 0 ==> r == Err::<
                Block,
                ConsensusError,
            >(ConsensusError::EmptyProposal),
            r is Ok <==> self.ledger.height < u32::MAX && self.ledger.round < u64::MAX && (
            self.spec_candidate_transactions().len() > 0 || self.spec_candidate_solutions().len()
                > 0),
            r matches Ok(b) ==> {
                &&& b.height == self.ledger.height + 1
                &&& b.round == self.ledger.round + 1
                &&& b.epoch_number == self.ledger.epoch_number
                &&& b.proof_target == self.ledger.proof_target
                &&& b.coinbase_target == self.ledger.coinbase_target
                &&& b.transaction_ids@ == self.spec_candidate_transactions()
                &&& b.solutions@ == self.spec_candidate_solutions()
            },
    {
        let latest_height = self.ledger.latest_height();
        if latest_height == u32::MAX {
            return Err(ConsensusError::HeightExhausted);
        }
        let latest_round = self.ledger.latest_round();
        if latest_round == u64::MAX {
            return Err(ConsensusError::RoundExhausted);
        }
        let latest_proof_target = self.ledger.latest_proof_target();
        let latest_coinbase_target = self.ledger.latest_coinbase_target();
        let transactions = self.memory_pool.candidate_transactions(&self.ledger);
        let prover_solutions = self.memory_pool.candidate_solutions(
            &self.ledger,
            latest_height,
            latest_proof_target,
            latest_coinbase_target,
        );
        if transactions.len() == 0 && prover_solutions.len() == 0 {
            return Err(ConsensusError::EmptyProposal);
        }
        Ok(
            Block {
                height: latest_height + 1,
                round: latest_round + 1,
                epoch_number: self.ledger.latest_epoch_number(),
                proof_target: latest_proof_target,
                coinbase_target: latest_coinbase_target,
                transaction_ids: transactions,
                solutions: prover_solutions,
            },
        )
    }

    /// Advances the ledger to the next block and prunes the pool. The
    /// advance is all-or-nothing with respect to the pool: if the ledger
    /// refuses the block, its error is surfaced and the whole state is
    /// unchanged. On success the now-invalid transactions are always
    /// pruned, and the solutions are pruned by exactly one of three rules
    /// decided by the block's epoch and coinbase: full clear on an epoch
    /// rollover, a validity prune when a coinbase was produced in the same
    /// epoch, and no pruning otherwise.
    pub fn advance_to_next_block(&mut self, block: &Block) -> (r: Result<(), ConsensusError>)
        requires
            old(self).wf(),
        ensures
            final(self).wf(),
            r is Ok <==> old(self).ledger.spec_can_append(*block),
            r is Err ==> *final(self) == *old(self),
            r is Err ==> (match old(self).ledger.spec_append_error(*block) {
                Some(le) => r == Err::<(), ConsensusError>(ConsensusError::Ledger(le)),
                None => false,
            }),
            r is Ok ==> {
                &&& final(self).ledger.height == block.height
                &&& final(self).ledger.round == block.round
                &&& final(self).ledger.epoch_number == block.epoch_number
                &&& final(self).ledger.proof_target == block.proof_target
                &&& final(self).ledger.coinbase_target == block.coinbase_target
                &&& final(self).ledger.finalized_transaction_ids@ == old(self).ledger.finalized_transaction_ids@ + block.transaction_ids@
                &&& final(self).ledger.finalized_solution_ids@ == old(self).ledger.finalized_solution_ids@ + block.spec_solution_commitments()
                &&& final(self).memory_pool.spec_transactions() == old(self).memory_pool.spec_transactions().filter(
                    |p: (u64, u64)| !final(self).ledger.spec_is_finalized_transaction(p.0),
                )
                &&& forall|i: int|
                    0 <= i < final(self).memory_pool.spec_transactions().len() ==> !final(self).ledger.spec_is_finalized_transaction(
                        (#[trigger] final(self).memory_pool.spec_transactions()[i]).0,
                    )
                &&& final(self).memory_pool.spec_solutions() == spec_solutions_after_advance(
                    old(self).memory_pool.spec_solutions(),
                    old(self).ledger.epoch_number,
                    *block,
                    final(self).ledger,
                )
                &&& final(self).bft == old(self).bft
                &&& final(self).primary_sender == old(self).primary_sender
                &&& final(self).handles@ == old(self).handles@
            },
    {
        let prior_epoch = self.ledger.latest_epoch_number();
        match self.ledger.advance_to_next_block(block) {
            Err(e) => {
                return Err(ConsensusError::Ledger(e));
            },
            Ok(()) => {},
        }
        self.memory_pool.clear_invalid_transactions(&self.ledger);
        if block.epoch_number() > prior_epoch {
            self.memory_pool.clear_all_unconfirmed_solutions();
        } else if block.has_coinbase() {
            self.memory_pool.clear_invalid_solutions(&self.ledger);
        }
        Ok(())
    }
}

/// The round the initial committee is valid from: the one after the
/// ledger's latest.
fn self_next_round(ledger: &Ledger) -> (r: u64)
    requires
        ledger.round < u64::MAX,
    ensures
        r == ledger.round + 1,
{
    ledger.latest_round() + 1
}

/// Law: the coinbase-target verdict is a function of the pool's solutions
/// and the ledger's two targets alone — two states that agree on those
/// agree on the verdict, so repeated queries with no intervening pool or
/// ledger mutation return the same answer.
pub proof fn lemma_coinbase_target_met_depends_only_on_state(a: Consensus, b: Consensus)
    requires
        a.memory_pool.spec_solutions() == b.memory_pool.spec_solutions(),
        a.ledger.proof_target == b.ledger.proof_target,
        a.ledger.coinbase_target == b.ledger.coinbase_target,
    ensures
        a.spec_coinbase_target_met() == b.spec_coinbase_target_met(),
{
}

/// Law: a proposed candidate block is appendable — any block that carries
/// the header values and candidate selections `propose_next_block` returns
/// for a well-formed state passes every ledger append check, so a
/// successful proposal can always be accepted against the unchanged
/// ledger.
pub proof fn lemma_proposed_block_is_appendable(c: Consensus, b: Block)
    requires
        c.wf(),
        c.ledger.height < u32::MAX,
        c.ledger.round < u64::MAX,
        b.height == c.ledger.height + 1,
        b.round == c.ledger.round + 1,
        b.epoch_number == c.ledger.epoch_number,
        b.transaction_ids@ == c.spec_candidate_transactions(),
        b.solutions@ == c.spec_candidate_solutions(),
    ensures
        c.ledger.spec_can_append(b),
{
    let txs = c.memory_pool.spec_transactions();
    let sols = c.memory_pool.spec_solutions();
    crate::pool::lemma_selected_transactions_distinct(txs, c.ledger, txs.len() as int);
    crate::pool::lemma_candidate_transactions_exclude_finalized(c.memory_pool, c.ledger);
    crate::pool::lemma_selected_solutions_distinct(
        sols,
        c.ledger,
        c.ledger.proof_target,
        c.ledger.coinbase_target,
        sols.len() as int,
    );
    crate::pool::lemma_selected_solutions_props(
        sols,
        c.ledger,
        c.ledger.proof_target,
        c.ledger.coinbase_target,
        sols.len() as int,
    );
}

/// Law: solution pruning after an accepted block is exhaustive and
/// exclusive — exactly one of {full clear, validity prune, no pruning}
/// applies, decided solely by whether the block advanced the epoch and
/// whether it carries a coinbase.
pub proof fn lemma_solution_pruning_exhaustive(
    pool_solutions: Seq<(u64, u64)>,
    prior_epoch: u32,
    b: Block,
    new_ledger: Ledger,
)
    ensures
        ({
            let full_clear = b.epoch_number > prior_epoch;
            let validity_prune = !(b.epoch_number > prior_epoch) && b.spec_has_coinbase();
            let no_pruning = !(b.epoch_number > prior_epoch) && !b.spec_has_coinbase();
            &&& full_clear || validity_prune || no_pruning
            &&& !(full_clear && validity_prune)
            &&& !(full_clear && no_pruning)
            &&& !(validity_prune && no_pruning)
            &&& full_clear ==> spec_solutions_after_advance(pool_solutions, prior_epoch, b, new_ledger)
                == Seq::<(u64, u64)>::empty()
            &&& validity_prune ==> spec_solutions_after_advance(
                pool_solutions,
                prior_epoch,
                b,
                new_ledger,
            ) == pool_solutions.filter(
                (|p: (u64, u64)| spec_solution_valid(new_ledger, p.0, p.1)),
            )
            &&& no_pruning ==> spec_solutions_after_advance(pool_solutions, prior_epoch, b, new_ledger)
                == pool_solutions
        }),
{
}

} // verus!
