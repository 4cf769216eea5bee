//! The memory pool: admission and invalidation of unconfirmed work.
//!
//! The pool keeps two insertion-ordered collections — unconfirmed
//! transactions keyed by transaction identifier, and unconfirmed solutions
//! keyed by commitment, each carrying its proof target. Candidate selection
//! walks the entries in submission order under the per-block limits;
//! pruning keeps exactly the entries still valid against the ledger state
//! it is given.

use crate::block::{ProverSolution, Transaction};
use crate::entries::{
    keys_distinct, lemma_sum_values_bound, lemma_take_sum_fits, seq_has_key, sum_values_at_least,
};
use crate::index_map::{
    entries_of, imap_clear, imap_contains_key, imap_entries, imap_insert, imap_len, imap_new,
    OrderedU64Map,
};
use crate::ledger::Ledger;
use vstd::prelude::*;

verus! {

/// Most transactions one block may carry.
pub const MAX_CANDIDATE_TRANSACTIONS: usize = 65535;

/// Most prover solutions one block may carry.
pub const MAX_CANDIDATE_SOLUTIONS: usize = 256;

/// True iff an unconfirmed transaction with this identifier is still valid
/// against the given ledger state.
pub open spec fn spec_transaction_valid(l: Ledger, id: u64) -> bool {
    !l.spec_is_finalized_transaction(id)
}

/// True iff an unconfirmed solution is still valid against the given ledger
/// state: its target reaches the threshold and its commitment is not
/// finalized.
pub open spec fn spec_solution_valid(l: Ledger, commitment: u64, target: u64) -> bool {
    target >= l.proof_target && !l.spec_is_finalized_solution(commitment)
}

/// The entries among the first `n` of `s` that satisfy `keep`, in order.
pub open spec fn retained_prefix(
    s: Seq<(u64, u64)>,
    keep: spec_fn((u64, u64)) -> bool,
    n: int,
) -> Seq<(u64, u64)>
    decreases n,
{
    if n <= 0 {
        Seq::empty()
    } else {
        let prev = retained_prefix(s, keep, n - 1);
        if keep(s[n - 1]) {
            prev.push(s[n - 1])
        } else {
            prev
        }
    }
}

/// Walking a prefix and keeping matches is the same as filtering the prefix.
pub proof fn lemma_retained_prefix_is_filter(
    s: Seq<(u64, u64)>,
    keep: spec_fn((u64, u64)) -> bool,
    n: int,
)
    requires
        0 <= n <= s.len(),
    ensures
        retained_prefix(s, keep, n) == s.take(n).filter(keep),
    decreases n,
{
    reveal_with_fuel(Seq::<(u64, u64)>::filter, 2);
    if n == 0 {
        assert(s.take(0) =~= Seq::<(u64, u64)>::empty());
        assert(s.take(0).filter(keep) =~= Seq::<(u64, u64)>::empty());
    } else {
        lemma_retained_prefix_is_filter(s, keep, n - 1);
        assert(s.take(n).drop_last() =~= s.take(n - 1));
        assert(s.take(n).last() == s[n - 1]);
    }
}

/// Every retained entry comes from the prefix, satisfies `keep`, and — when
/// the source keys are distinct — the retained keys are distinct too.
pub proof fn lemma_retained_prefix_props(
    s: Seq<(u64, u64)>,
    keep: spec_fn((u64, u64)) -> bool,
    n: int,
)
    requires
        0 <= n <= s.len(),
    ensures
        forall|i: int|
            0 <= i < retained_prefix(s, keep, n).len() ==> keep(
                #[trigger] retained_prefix(s, keep, n)[i],
            ) && exists|k: int| 0 <= k < n && s[k] == retained_prefix(s, keep, n)[i],
        keys_distinct(s) ==> keys_distinct(retained_prefix(s, keep, n)),
    decreases n,
{
    if n > 0 {
        lemma_retained_prefix_props(s, keep, n - 1);
        let prev = retained_prefix(s, keep, n - 1);
        let cur = retained_prefix(s, keep, n);
        if keep(s[n - 1]) {
            assert(cur == prev.push(s[n - 1]));
            assert(forall|i: int| 0 <= i < prev.len() ==> cur[i] == prev[i]);
            assert(cur[prev.len() as int] == s[n - 1]);
            if keys_distinct(s) {
                assert forall|i: int, j: int| 0 <= i < j < cur.len() implies cur[i].0 != cur[j].0 by {
                    if j < prev.len() {
                    } else {
                        let k = choose|k: int| 0 <= k < n - 1 && s[k] == prev[i];
                        assert(s[k].0 != s[n - 1].0);
                    }
                }
            }
        }
    }
}

/// The identifiers among the first `n` pool transactions that are valid
/// against `l`, in submission order, up to the per-block limit.
pub open spec fn selected_transactions_prefix(s: Seq<(u64, u64)>, l: Ledger, n: int) -> Seq<u64>
    decreases n,
{
    if n <= 0 {
        Seq::empty()
    } else {
        let prev = selected_transactions_prefix(s, l, n - 1);
        if spec_transaction_valid(l, s[n - 1].0) && prev.len() < MAX_CANDIDATE_TRANSACTIONS {
            prev.push(s[n - 1].0)
        } else {
            prev
        }
    }
}

/// Every selected transaction identifier is valid against `l`, and no more
/// than the per-block limit are selected.
pub proof fn lemma_selected_transactions_props(s: Seq<(u64, u64)>, l: Ledger, n: int)
    requires
        0 <= n,
    ensures
        selected_transactions_prefix(s, l, n).len() <= MAX_CANDIDATE_TRANSACTIONS,
        forall|i: int|
            0 <= i < selected_transactions_prefix(s, l, n).len() ==> spec_transaction_valid(
                l,
                #[trigger] selected_transactions_prefix(s, l, n)[i],
            ),
    decreases n,
{
    if n > 0 {
        lemma_selected_transactions_props(s, l, n - 1);
    }
}

/// The solutions among the first `n` pool solutions that are valid against
/// `l` at threshold `proof_target`, in submission order, selected while the
/// per-block limit is not reached and the cumulative target of what is
/// already selected stays below `coinbase_target`.
pub open spec fn selected_solutions_prefix(
    s: Seq<(u64, u64)>,
    l: Ledger,
    proof_target: u64,
    coinbase_target: u64,
    n: int,
) -> Seq<(u64, u64)>
    decreases n,
{
    if n <= 0 {
        Seq::empty()
    } else {
        let prev = selected_solutions_prefix(s, l, proof_target, coinbase_target, n - 1);
        if s[n - 1].1 >= proof_target && !l.spec_is_finalized_solution(s[n - 1].0) && prev.len()
            < MAX_CANDIDATE_SOLUTIONS && sum_values_at_least(prev, 0) < coinbase_target {
            prev.push(s[n - 1])
        } else {
            prev
        }
    }
}

/// Every selected solution is valid against `l` at the given threshold, and
/// no more than the per-block limit are selected.
pub proof fn lemma_selected_solutions_props(
    s: Seq<(u64, u64)>,
    l: Ledger,
    proof_target: u64,
    coinbase_target: u64,
    n: int,
)
    requires
        0 <= n,
    ensures
        selected_solutions_prefix(s, l, proof_target, coinbase_target, n).len()
            <= MAX_CANDIDATE_SOLUTIONS,
        forall|i: int|
            0 <= i < selected_solutions_prefix(s, l, proof_target, coinbase_target, n).len()
                ==> (#[trigger] selected_solutions_prefix(s, l, proof_target, coinbase_target, n)[i]).1
                >= proof_target && !l.spec_is_finalized_solution(
                selected_solutions_prefix(s, l, proof_target, coinbase_target, n)[i].0,
            ),
    decreases n,
{
    if n > 0 {
        lemma_selected_solutions_props(s, l, proof_target, coinbase_target, n - 1);
    }
}

/// The pending-work admission pool.
pub struct MemoryPool {
    /// Unconfirmed transactions: identifier mapped to itself, in submission
    /// order.
    transactions: OrderedU64Map,
    /// Unconfirmed solutions: commitment mapped to its proof target, in
    /// submission order.
    solutions: OrderedU64Map,
}

impl MemoryPool {
    /// The unconfirmed transaction entries, in submission order.
    pub closed spec fn spec_transactions(self) -> Seq<(u64, u64)> {
        entries_of(self.transactions)
    }

    /// The unconfirmed solution entries, in submission order.
    pub closed spec fn spec_solutions(self) -> Seq<(u64, u64)> {
        entries_of(self.solutions)
    }

    /// Well-formed: keys are distinct in both collections, and a
    /// transaction entry's value is its own identifier.
    pub open spec fn wf(self) -> bool {
        &&& keys_distinct(self.spec_transactions())
        &&& keys_distinct(self.spec_solutions())
        &&& forall|i: int|
            0 <= i < self.spec_transactions().len() ==> (#[trigger] self.spec_transactions()[i]).1
                == self.spec_transactions()[i].0
    }

    /// The candidate transaction identifiers for one block, against `l`.
    pub open spec fn spec_candidate_transactions(self, l: Ledger) -> Seq<u64> {
        selected_transactions_prefix(
            self.spec_transactions(),
            l,
            self.spec_transactions().len() as int,
        )
    }

    /// The candidate solutions for one block, against `l` at the given
    /// thresholds.
    pub open spec fn spec_candidate_solutions(
        self,
        l: Ledger,
        proof_target: u64,
        coinbase_target: u64,
    ) -> Seq<(u64, u64)> {
        selected_solutions_prefix(
            self.spec_solutions(),
            l,
            proof_target,
            coinbase_target,
            self.spec_solutions().len() as int,
        )
    }

    /// The cumulative proof target the pooled solutions contribute at the
    /// given threshold.
    pub open spec fn spec_cumulative_proof_target(self, latest_proof_target: u64) -> int {
        sum_values_at_least(self.spec_solutions(), latest_proof_target)
    }

    /// Returns an empty pool.
    pub fn new() -> (r: MemoryPool)
        ensures
            r.wf(),
            r.spec_transactions() == Seq::<(u64, u64)>::empty(),
            r.spec_solutions() == Seq::<(u64, u64)>::empty(),
    {
        MemoryPool { transactions: imap_new(), solutions: imap_new() }
    }

    /// Number of unconfirmed transactions.
    pub fn num_unconfirmed_transactions(&self) -> (n: usize)
        ensures
            n == self.spec_transactions().len(),
    {
        imap_len(&self.transactions)
    }

    /// Number of unconfirmed solutions.
    pub fn num_unconfirmed_solutions(&self) -> (n: usize)
        ensures
            n == self.spec_solutions().len(),
    {
        imap_len(&self.solutions)
    }

    /// Whether the pool holds an unconfirmed transaction with this
    /// identifier.
    pub fn contains_unconfirmed_transaction(&self, id: u64) -> (r: bool)
        ensures
            r == seq_has_key(self.spec_transactions(), id),
    {
        imap_contains_key(&self.transactions, id)
    }

    /// Whether the pool holds an unconfirmed solution with this commitment.
    pub fn contains_unconfirmed_solution(&self, commitment: u64) -> (r: bool)
        ensures
            r == seq_has_key(self.spec_solutions(), commitment),
    {
        imap_contains_key(&self.solutions, commitment)
    }

    /// The unconfirmed transaction identifiers, in submission order.
    pub fn unconfirmed_transaction_ids(&self) -> (r: Vec<u64>)
        ensures
            r@ == crate::entries::keys_of(self.spec_transactions()),
    {
        let pairs = imap_entries(&self.transactions);
        crate::entries::entry_keys(&pairs)
    }

    /// The unconfirmed solution entries, in submission order.
    pub fn unconfirmed_solution_entries(&self) -> (r: Vec<(u64, u64)>)
        ensures
            r@ == self.spec_solutions(),
    {
        imap_entries(&self.solutions)
    }

    /// Admits an unconfirmed transaction. A transaction already pooled
    /// leaves the pool unchanged; a new one is appended last.
    pub fn insert_unconfirmed_transaction(&mut self, transaction: &Transaction)
        requires
            old(self).wf(),
        ensures
            final(self).wf(),
            final(self).spec_solutions() == old(self).spec_solutions(),
            seq_has_key(old(self).spec_transactions(), transaction.id) ==> final(self).spec_transactions() == old(self).spec_transactions(),
            !seq_has_key(old(self).spec_transactions(), transaction.id) ==> final(self).spec_transactions() == old(self).spec_transactions().push(
                (transaction.id, transaction.id),
            ),
    {
        let ghost pre = entries_of(self.transactions);
        let _ = imap_insert(&mut self.transactions, transaction.id, transaction.id);
        proof {
            if seq_has_key(pre, transaction.id) {
                let i = choose|i: int| 0 <= i < pre.len() && pre[i].0 == transaction.id;
                assert(pre[i].1 == pre[i].0);
                assert(entries_of(self.transactions) == pre.update(
                    i,
                    (transaction.id, transaction.id),
                ));
                assert(pre.update(i, (transaction.id, transaction.id)) =~= pre);
            }
        }
    }

    /// Admits an unconfirmed solution. A commitment already pooled keeps its
    /// place and takes the new target; a new one is appended last.
    pub fn insert_unconfirmed_solution(&mut self, solution: &ProverSolution)
        requires
            old(self).wf(),
        ensures
            final(self).wf(),
            final(self).spec_transactions() == old(self).spec_transactions(),
            !seq_has_key(old(self).spec_solutions(), solution.commitment) ==> final(self).spec_solutions() == old(self).spec_solutions().push(
                (solution.commitment, solution.target),
            ),
            forall|i: int|
                0 <= i < old(self).spec_solutions().len() && old(self).spec_solutions()[i].0
                    == solution.commitment ==> final(self).spec_solutions() == old(self).spec_solutions().update(i, (solution.commitment, solution.target)),
    {
        let _ = imap_insert(&mut self.solutions, solution.commitment, solution.target);
    }

    /// Selects the candidate transactions for one block: the pooled
    /// transactions still valid against `l`, in submission order, up to the
    /// per-block limit.
    pub fn candidate_transactions(&self, l: &Ledger) -> (r: Vec<u64>)
        ensures
            r@ == self.spec_candidate_transactions(*l),
            r@.len() <= MAX_CANDIDATE_TRANSACTIONS,
            forall|i: int|
                0 <= i < r@.len() ==> !l.spec_is_finalized_transaction(#[trigger] r@[i]),
    {
        let entries = imap_entries(&self.transactions);
        let mut out: Vec<u64> = Vec::new();
        let mut i: usize = 0;
        while i < entries.len()
            invariant
                0 <= i <= entries@.len(),
                entries@ == self.spec_transactions(),
                out@ == selected_transactions_prefix(entries@, *l, i as int),
                out@.len() <= MAX_CANDIDATE_TRANSACTIONS,
            decreases entries@.len() - i,
        {
            if out.len() < MAX_CANDIDATE_TRANSACTIONS && !l.contains_transaction_id(entries[i].0) {
                out.push(entries[i].0);
            }
            i += 1;
        }
        proof {
            lemma_selected_transactions_props(entries@, *l, entries@.len() as int);
        }
        out
    }

    /// Selects the candidate solutions for one block: the pooled solutions
    /// valid against `l` at threshold `proof_target`, in submission order,
    /// taken while fewer than the per-block limit are selected and the
    /// cumulative target of those already selected is below
    /// `coinbase_target`. The `latest_height` is part of the admission
    /// context but does not narrow the selection.
    pub fn candidate_solutions(
        &self,
        l: &Ledger,
        latest_height: u32,
        proof_target: u64,
        coinbase_target: u64,
    ) -> (r: Vec<(u64, u64)>)
        ensures
            r@ == self.spec_candidate_solutions(*l, proof_target, coinbase_target),
            r@.len() <= MAX_CANDIDATE_SOLUTIONS,
            forall|i: int|
                0 <= i < r@.len() ==> (#[trigger] r@[i]).1 >= proof_target
                    && !l.spec_is_finalized_solution(r@[i].0),
    {
        let _ = latest_height;
        let entries = imap_entries(&self.solutions);
        let mut out: Vec<(u64, u64)> = Vec::new();
        let mut total: u128 = 0;
        let mut i: usize = 0;
        while i < entries.len()
            invariant
                0 <= i <= entries@.len(),
                entries@ == self.spec_solutions(),
                out@ == selected_solutions_prefix(
                    entries@,
                    *l,
                    proof_target,
                    coinbase_target,
                    i as int,
                ),
                out@.len() <= MAX_CANDIDATE_SOLUTIONS,
                total == sum_values_at_least(out@, 0),
            decreases entries@.len() - i,
        {
            let (commitment, target) = (entries[i].0, entries[i].1);
            if target >= proof_target && !l.contains_solution_id(commitment) && out.len()
                < MAX_CANDIDATE_SOLUTIONS && total < coinbase_target as u128 {
                out.push((commitment, target));
                proof {
                    lemma_sum_values_bound(out@.drop_last(), 0);
                    assert(out@.drop_last() =~= selected_solutions_prefix(
                        entries@,
                        *l,
                        proof_target,
                        coinbase_target,
                        i as int,
                    ));
                    assert(sum_values_at_least(out@, 0) == total + target);
                    lemma_selected_solutions_fit(out@.drop_last().len() as int);
                }
                total = total + target as u128;
            }
            i += 1;
        }
        proof {
            lemma_selected_solutions_props(
                entries@,
                *l,
                proof_target,
                coinbase_target,
                entries@.len() as int,
            );
        }
        out
    }

    /// The cumulative proof target contributed by the pooled solutions:
    /// the sum of every pooled target at or above `latest_proof_target`.
    pub fn candidate_coinbase_target(&self, latest_proof_target: u64) -> (r: u128)
        ensures
            r as int == self.spec_cumulative_proof_target(latest_proof_target),
    {
        let entries = imap_entries(&self.solutions);
        let mut total: u128 = 0;
        let mut i: usize = 0;
        while i < entries.len()
            invariant
                0 <= i <= entries@.len(),
                entries@ == self.spec_solutions(),
                total == sum_values_at_least(entries@.take(i as int), latest_proof_target),
            decreases entries@.len() - i,
        {
            proof {
                lemma_sum_values_bound(entries@.take(i as int), latest_proof_target);
                lemma_take_sum_fits(entries@, latest_proof_target, i as int);
            }
            let target = entries[i].1;
            if target >= latest_proof_target {
                total = total + target as u128;
            }
            proof {
                assert(entries@.take(i + 1).drop_last() =~= entries@.take(i as int));
                assert(entries@.take(i + 1).last() == entries@[i as int]);
            }
            i += 1;
        }
        proof {
            assert(entries@.take(entries@.len() as int) =~= entries@);
        }
        total
    }

    /// Removes every unconfirmed transaction no longer valid against `l`;
    /// what remains is exactly the still-valid entries, in their order.
    pub fn clear_invalid_transactions(&mut self, l: &Ledger)
        requires
            old(self).wf(),
        ensures
            final(self).wf(),
            final(self).spec_solutions() == old(self).spec_solutions(),
            final(self).spec_transactions() == old(self).spec_transactions().filter(
                |p: (u64, u64)| !l.spec_is_finalized_transaction(p.0),
            ),
            forall|i: int|
                0 <= i < final(self).spec_transactions().len()
                    ==> !l.spec_is_finalized_transaction(
                    (#[trigger] final(self).spec_transactions()[i]).0,
                ),
    {
        let ghost keep = |p: (u64, u64)| !l.spec_is_finalized_transaction(p.0);
        let entries = imap_entries(&self.transactions);
        let mut kept: Vec<(u64, u64)> = Vec::new();
        let mut i: usize = 0;
        while i < entries.len()
            invariant
                0 <= i <= entries@.len(),
                keep == (|p: (u64, u64)| !l.spec_is_finalized_transaction(p.0)),
                kept@ == retained_prefix(entries@, keep, i as int),
            decreases entries@.len() - i,
        {
            if !l.contains_transaction_id(entries[i].0) {
                kept.push(entries[i]);
            }
            i += 1;
        }
        proof {
            lemma_retained_prefix_props(entries@, keep, entries@.len() as int);
            lemma_retained_prefix_is_filter(entries@, keep, entries@.len() as int);
            assert(entries@.take(entries@.len() as int) =~= entries@);
        }
        self.transactions = crate::index_map::map_from_entries(&kept);
    }

    /// Removes every unconfirmed solution no longer valid against `l`;
    /// what remains is exactly the still-valid entries, in their order.
    pub fn clear_invalid_solutions(&mut self, l: &Ledger)
        requires
            old(self).wf(),
        ensures
            final(self).wf(),
            final(self).spec_transactions() == old(self).spec_transactions(),
            final(self).spec_solutions() == old(self).spec_solutions().filter(
                |p: (u64, u64)| spec_solution_valid(*l, p.0, p.1),
            ),
            forall|i: int|
                0 <= i < final(self).spec_solutions().len() ==> spec_solution_valid(
                    *l,
                    (#[trigger] final(self).spec_solutions()[i]).0,
                    final(self).spec_solutions()[i].1,
                ),
    {
        let ghost keep = |p: (u64, u64)| spec_solution_valid(*l, p.0, p.1);
        let entries = imap_entries(&self.solutions);
        let mut kept: Vec<(u64, u64)> = Vec::new();
        let mut i: usize = 0;
        while i < entries.len()
            invariant
                0 <= i <= entries@.len(),
                keep == (|p: (u64, u64)| spec_solution_valid(*l, p.0, p.1)),
                kept@ == retained_prefix(entries@, keep, i as int),
            decreases entries@.len() - i,
        {
            if entries[i].1 >= l.latest_proof_target() && !l.contains_solution_id(entries[i].0) {
                kept.push(entries[i]);
            }
            i += 1;
        }
        proof {
            lemma_retained_prefix_props(entries@, keep, entries@.len() as int);
            lemma_retained_prefix_is_filter(entries@, keep, entries@.len() as int);
            assert(entries@.take(entries@.len() as int) =~= entries@);
        }
        self.solutions = crate::index_map::map_from_entries(&kept);
    }

    /// Removes every unconfirmed solution; the transactions are untouched.
    /// Safe on an empty pool.
    pub fn clear_all_unconfirmed_solutions(&mut self)
        requires
            old(self).wf(),
        ensures
            final(self).wf(),
            final(self).spec_transactions() == old(self).spec_transactions(),
            final(self).spec_solutions() == Seq::<(u64, u64)>::empty(),
    {
        imap_clear(&mut self.solutions);
    }
}

/// Every selected transaction identifier is the key of some entry in the
/// prefix, and — when the pool keys are distinct — no identifier is
/// selected twice.
pub proof fn lemma_selected_transactions_distinct(s: Seq<(u64, u64)>, l: Ledger, n: int)
    requires
        0 <= n <= s.len(),
        keys_distinct(s),
    ensures
        forall|i: int|
            0 <= i < selected_transactions_prefix(s, l, n).len() ==> exists|k: int|
                0 <= k < n && s[k].0 == #[trigger] selected_transactions_prefix(s, l, n)[i],
        crate::entries::elems_distinct(selected_transactions_prefix(s, l, n)),
    decreases n,
{
    if n > 0 {
        lemma_selected_transactions_distinct(s, l, n - 1);
        let prev = selected_transactions_prefix(s, l, n - 1);
        let cur = selected_transactions_prefix(s, l, n);
        if spec_transaction_valid(l, s[n - 1].0) && prev.len() < MAX_CANDIDATE_TRANSACTIONS {
            assert(cur == prev.push(s[n - 1].0));
            assert(forall|i: int| 0 <= i < prev.len() ==> cur[i] == prev[i]);
            assert(cur[prev.len() as int] == s[n - 1].0);
            assert forall|i: int, j: int| 0 <= i < j < cur.len() implies cur[i] != cur[j] by {
                if j < prev.len() {
                } else {
                    let k = choose|k: int| 0 <= k < n - 1 && s[k].0 == prev[i];
                    assert(s[k].0 != s[n - 1].0);
                }
            }
        }
    }
}

/// Every selected solution is an entry of the prefix, and — when the pool
/// keys are distinct — no commitment is selected twice.
pub proof fn lemma_selected_solutions_distinct(
    s: Seq<(u64, u64)>,
    l: Ledger,
    proof_target: u64,
    coinbase_target: u64,
    n: int,
)
    requires
        0 <= n <= s.len(),
        keys_distinct(s),
    ensures
        forall|i: int|
            0 <= i < selected_solutions_prefix(s, l, proof_target, coinbase_target, n).len()
                ==> exists|k: int|
                0 <= k < n && s[k] == #[trigger] selected_solutions_prefix(
                    s,
                    l,
                    proof_target,
                    coinbase_target,
                    n,
                )[i],
        keys_distinct(selected_solutions_prefix(s, l, proof_target, coinbase_target, n)),
    decreases n,
{
    if n > 0 {
        lemma_selected_solutions_distinct(s, l, proof_target, coinbase_target, n - 1);
        let prev = selected_solutions_prefix(s, l, proof_target, coinbase_target, n - 1);
        let cur = selected_solutions_prefix(s, l, proof_target, coinbase_target, n);
        if s[n - 1].1 >= proof_target && !l.spec_is_finalized_solution(s[n - 1].0) && prev.len()
            < MAX_CANDIDATE_SOLUTIONS && sum_values_at_least(prev, 0) < coinbase_target {
            assert(cur == prev.push(s[n - 1]));
            assert(forall|i: int| 0 <= i < prev.len() ==> cur[i] == prev[i]);
            assert(cur[prev.len() as int] == s[n - 1]);
            assert forall|i: int, j: int| 0 <= i < j < cur.len() implies cur[i].0 != cur[j].0 by {
                if j < prev.len() {
                } else {
                    let k = choose|k: int| 0 <= k < n - 1 && s[k] == prev[i];
                    assert(s[k].0 != s[n - 1].0);
                }
            }
        }
    }
}

/// Law: candidate selection never returns a finalized identifier — for any
/// pool and any ledger state, every identifier in the candidate transaction
/// sequence is absent from the ledger's finalized set.
pub proof fn lemma_candidate_transactions_exclude_finalized(p: MemoryPool, l: Ledger)
    ensures
        forall|i: int|
            0 <= i < p.spec_candidate_transactions(l).len() ==> !l.spec_is_finalized_transaction(
                #[trigger] p.spec_candidate_transactions(l)[i],
            ),
{
    lemma_selected_transactions_props(
        p.spec_transactions(),
        l,
        p.spec_transactions().len() as int,
    );
}

/// A selection below the per-block solution limit keeps its running sum far
/// enough from the `u128` ceiling to take one more target.
proof fn lemma_selected_solutions_fit(n: int)
    requires
        0 <= n < MAX_CANDIDATE_SOLUTIONS,
    ensures
        n * (u64::MAX as int) + (u64::MAX as int) <= u128::MAX as int,
{
    assert(n * (u64::MAX as int) + (u64::MAX as int) <= (MAX_CANDIDATE_SOLUTIONS as int) * (
    u64::MAX as int)) by (nonlinear_arith)
        requires
            0 <= n < MAX_CANDIDATE_SOLUTIONS,
    ;
}

} // verus!
