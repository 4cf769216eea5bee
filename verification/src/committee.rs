//! The stake-weighted validator committee and its bootstrap.
//!
//! A committee is an insertion-ordered mapping from validator address to
//! stake, tagged with the round it is valid from. Every member's stake must
//! reach the minimum stake threshold, and membership is fixed at
//! construction. The bootstrap is pluggable: a development bootstrap that
//! samples addresses, or a discovered member set handed in by the caller.

use crate::entries::{
    entry_keys, keys_distinct, lemma_keys_of_contains, lemma_keys_of_distinct,
    lemma_sum_values_bound, lemma_take_sum_fits, seq_has_key, sum_values_at_least,
    vec_all_distinct_u64, vec_contains_u64,
};
use crate::errors::CommitteeError;
use crate::index_map::{entries_of, imap_contains_key, imap_entries, imap_len, map_from_entries,
    OrderedU64Map};
use vstd::prelude::*;

verus! {

/// The minimum stake a committee member must hold.
pub const MIN_STAKE: u64 = 1_000_000_000_000;

/// How many members the development bootstrap samples.
pub const BOOTSTRAP_COMMITTEE_SIZE: usize = 4;

/// Where the initial validator set comes from.
pub enum CommitteeSource {
    /// Development bootstrap: sampled addresses, each staking the minimum.
    RandomBootstrap,
    /// A discovered member set of `(address, stake)` pairs.
    DiscoveredBootstrap(Vec<(u64, u64)>),
}

/// Relies on rand::random: draws an address from thread-local randomness;
/// nothing is promised of which value comes back.
#[verifier::external_body]
fn sample_address() -> (addr: u64) {
    rand::random::<u64>()
}

/// The stake-weighted validator set for a round.
pub struct Committee {
    /// The round this committee is valid from.
    starting_round: u64,
    /// Address mapped to stake, in insertion order.
    members: OrderedU64Map,
}

impl Committee {
    /// The round this committee is valid from.
    pub closed spec fn spec_starting_round(self) -> u64 {
        self.starting_round
    }

    /// The `(address, stake)` entries, in insertion order.
    pub closed spec fn spec_members(self) -> Seq<(u64, u64)> {
        entries_of(self.members)
    }

    /// Well-formed: at least one member, distinct addresses, and every
    /// stake at or above the minimum stake threshold.
    pub open spec fn wf(self) -> bool {
        &&& self.spec_members().len() >= 1
        &&& keys_distinct(self.spec_members())
        &&& forall|i: int|
            0 <= i < self.spec_members().len() ==> (#[trigger] self.spec_members()[i]).1
                >= MIN_STAKE
    }

    /// The error a member set is refused with, or `None` when it is
    /// accepted. The checks run in this order: emptiness, duplicate
    /// addresses, stake threshold.
    pub open spec fn spec_new_error(members: Seq<(u64, u64)>) -> Option<CommitteeError> {
        if members.len() == 0 {
            Some(CommitteeError::Empty)
        } else if !keys_distinct(members) {
            Some(CommitteeError::DuplicateMember)
        } else if exists|i: int| 0 <= i < members.len() && members[i].1 < MIN_STAKE {
            Some(CommitteeError::StakeBelowMinimum)
        } else {
            None
        }
    }

    /// Builds the committee for the given member set. The call succeeds
    /// exactly when the set is nonempty, addresses are distinct, and every
    /// stake reaches the minimum; otherwise it names the first failing
    /// check.
    pub fn new(starting_round: u64, members: Vec<(u64, u64)>) -> (r: Result<
        Committee,
        CommitteeError,
    >)
        ensures
            r is Ok <==> Committee::spec_new_error(members@) is None,
            r matches Err(e) ==> Some(e) == Committee::spec_new_error(members@),
            r matches Ok(c) ==> c.wf() && c.spec_members() == members@ && c.spec_starting_round()
                == starting_round,
    {
        if members.len() == 0 {
            return Err(CommitteeError::Empty);
        }
        let addresses = entry_keys(&members);
        proof {
            lemma_keys_of_distinct(members@);
        }
        if !vec_all_distinct_u64(&addresses) {
            return Err(CommitteeError::DuplicateMember);
        }
        let mut i: usize = 0;
        while i < members.len()
            invariant
                0 <= i <= members@.len(),
                members@.len() > 0,
                keys_distinct(members@),
                forall|j: int| 0 <= j < i ==> (#[trigger] members@[j]).1 >= MIN_STAKE,
            decreases members@.len() - i,
        {
            if members[i].1 < MIN_STAKE {
                return Err(CommitteeError::StakeBelowMinimum);
            }
            i += 1;
        }
        Ok(Committee { starting_round, members: map_from_entries(&members) })
    }

    /// Builds the development-bootstrap committee: up to
    /// `BOOTSTRAP_COMMITTEE_SIZE` sampled addresses, each staking the
    /// minimum. Sampling cannot fail the stake or duplicate checks, so the
    /// committee is always well formed.
    pub fn random_bootstrap(starting_round: u64) -> (r: Committee)
        ensures
            r.wf(),
            r.spec_starting_round() == starting_round,
            1 <= r.spec_members().len() <= BOOTSTRAP_COMMITTEE_SIZE,
            forall|i: int|
                0 <= i < r.spec_members().len() ==> (#[trigger] r.spec_members()[i]).1
                    == MIN_STAKE,
    {
        let mut members: Vec<(u64, u64)> = Vec::new();
        let mut i: usize = 0;
        while i < BOOTSTRAP_COMMITTEE_SIZE
            invariant
                0 <= i <= BOOTSTRAP_COMMITTEE_SIZE,
                members@.len() <= i,
                i >= 1 ==> members@.len() >= 1,
                keys_distinct(members@),
                forall|j: int|
                    0 <= j < members@.len() ==> (#[trigger] members@[j]).1 == MIN_STAKE,
            decreases BOOTSTRAP_COMMITTEE_SIZE - i,
        {
            let addr = sample_address();
            let addresses = entry_keys(&members);
            proof {
                lemma_keys_of_contains(members@, addr);
            }
            if !vec_contains_u64(&addresses, addr) {
                members.push((addr, MIN_STAKE));
            }
            i += 1;
        }
        Committee { starting_round, members: map_from_entries(&members) }
    }

    /// Returns the round this committee is valid from.
    pub fn starting_round(&self) -> (r: u64)
        ensures
            r == self.spec_starting_round(),
    {
        self.starting_round
    }

    /// Returns the number of members.
    pub fn num_members(&self) -> (n: usize)
        ensures
            n == self.spec_members().len(),
    {
        imap_len(&self.members)
    }

    /// The `(address, stake)` entries, in insertion order.
    pub fn members(&self) -> (r: Vec<(u64, u64)>)
        ensures
            r@ == self.spec_members(),
    {
        imap_entries(&self.members)
    }

    /// Whether the given address belongs to the committee.
    pub fn is_committee_member(&self, address: u64) -> (r: bool)
        ensures
            r == seq_has_key(self.spec_members(), address),
    {
        imap_contains_key(&self.members, address)
    }

    /// The total stake of the committee.
    pub fn total_stake(&self) -> (r: u128)
        ensures
            r as int == sum_values_at_least(self.spec_members(), 0),
    {
        let entries = imap_entries(&self.members);
        let mut total: u128 = 0;
        let mut i: usize = 0;
        while i < entries.len()
            invariant
                0 <= i <= entries@.len(),
                entries@ == self.spec_members(),
                total == sum_values_at_least(entries@.take(i as int), 0),
            decreases entries@.len() - i,
        {
            proof {
                lemma_sum_values_bound(entries@.take(i as int), 0);
                lemma_take_sum_fits(entries@, 0, i as int);
            }
            total = total + entries[i].1 as u128;
            proof {
                assert(entries@.take(i + 1).drop_last() =~= entries@.take(i as int));
                assert(entries@.take(i + 1).last() == entries@[i as int]);
            }
            i += 1;
        }
        proof {
            assert(entries@.take(entries@.len() as int) =~= entries@);
        }
        total
    }
}

} // verus!
