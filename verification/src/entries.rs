//! Helpers over ordered key/value entry sequences.
//!
//! The memory pool and the committee both keep their contents as ordered
//! sequences of `(key, value)` pairs with pairwise-distinct keys. The spec
//! functions here say what those sequences hold; the executable functions
//! are small verified scans used by several modules.

use vstd::prelude::*;

verus! {

/// True iff some entry of `s` carries the key `k`.
pub open spec fn seq_has_key(s: Seq<(u64, u64)>, k: u64) -> bool {
    exists|i: int| 0 <= i < s.len() && s[i].0 == k
}

/// True iff no two entries of `s` share a key.
pub open spec fn keys_distinct(s: Seq<(u64, u64)>) -> bool {
    forall|i: int, j: int| 0 <= i < j < s.len() ==> s[i].0 != s[j].0
}

/// The keys of `s`, in entry order.
pub open spec fn keys_of(s: Seq<(u64, u64)>) -> Seq<u64> {
    s.map_values(|p: (u64, u64)| p.0)
}

/// True iff no two elements of `s` are equal.
pub open spec fn elems_distinct(s: Seq<u64>) -> bool {
    forall|i: int, j: int| 0 <= i < j < s.len() ==> s[i] != s[j]
}

/// Sum of the values of `s` whose value is at least `threshold`.
pub open spec fn sum_values_at_least(s: Seq<(u64, u64)>, threshold: u64) -> int
    decreases s.len(),
{
    if s.len() == 0 {
        0
    } else {
        sum_values_at_least(s.drop_last(), threshold)
            + if s.last().1 >= threshold { s.last().1 as int } else { 0int }
    }
}

/// The keys of an entry sequence are pairwise distinct exactly when the
/// key sequence has pairwise-distinct elements.
pub proof fn lemma_keys_of_distinct(s: Seq<(u64, u64)>)
    ensures
        keys_distinct(s) <==> elems_distinct(keys_of(s)),
{
    if keys_distinct(s) {
        assert forall|i: int, j: int|
            0 <= i < j < keys_of(s).len() implies keys_of(s)[i] != keys_of(s)[j] by {
            assert(s[i].0 != s[j].0);
        }
    }
    if elems_distinct(keys_of(s)) {
        assert forall|i: int, j: int| 0 <= i < j < s.len() implies s[i].0 != s[j].0 by {
            assert(keys_of(s)[i] == s[i].0);
            assert(keys_of(s)[j] == s[j].0);
        }
    }
}

/// The partial sum grows by at most `u64::MAX` per entry.
pub proof fn lemma_sum_values_bound(s: Seq<(u64, u64)>, threshold: u64)
    ensures
        0 <= sum_values_at_least(s, threshold) <= s.len() * (u64::MAX as int),
    decreases s.len(),
{
    if s.len() == 0 {
    } else {
        lemma_sum_values_bound(s.drop_last(), threshold);
        assert((s.len() - 1) * (u64::MAX as int) + (u64::MAX as int) == s.len() * (
        u64::MAX as int)) by (nonlinear_arith);
    }
}

/// A key sequence holds `k` exactly when some entry carries it.
pub proof fn lemma_keys_of_contains(s: Seq<(u64, u64)>, k: u64)
    ensures
        keys_of(s).contains(k) <==> seq_has_key(s, k),
{
    if keys_of(s).contains(k) {
        let i = choose|i: int| 0 <= i < keys_of(s).len() && keys_of(s)[i] == k;
        assert(s[i].0 == k);
    }
    if seq_has_key(s, k) {
        let i = choose|i: int| 0 <= i < s.len() && s[i].0 == k;
        assert(keys_of(s)[i] == k);
    }
}

/// A prefix sum of entries can take one more `u64` value without reaching
/// the `u128` ceiling.
pub proof fn lemma_take_sum_fits(s: Seq<(u64, u64)>, threshold: u64, i: int)
    requires
        0 <= i < s.len(),
        s.len() <= usize::MAX,
    ensures
        sum_values_at_least(s.take(i), threshold) + (u64::MAX as int) <= u128::MAX as int,
{
    lemma_sum_values_bound(s.take(i), threshold);
    assert(i * (u64::MAX as int) + (u64::MAX as int) <= (u64::MAX as int) * (u64::MAX as int) + (
    u64::MAX as int)) by (nonlinear_arith)
        requires
            0 <= i <= u64::MAX as int,
    ;
}

/// The keys of the given entries, in order.
pub fn entry_keys(pairs: &Vec<(u64, u64)>) -> (r: Vec<u64>)
    ensures
        r@ == keys_of(pairs@),
{
    let mut out: Vec<u64> = Vec::new();
    let mut i: usize = 0;
    while i < pairs.len()
        invariant
            0 <= i <= pairs@.len(),
            out@ == keys_of(pairs@).take(i as int),
        decreases pairs@.len() - i,
    {
        out.push(pairs[i].0);
        assert(out@ =~= keys_of(pairs@).take(i + 1));
        i += 1;
    }
    assert(keys_of(pairs@).take(pairs@.len() as int) =~= keys_of(pairs@));
    out
}

/// Whether `v` holds `x`.
pub fn vec_contains_u64(v: &Vec<u64>, x: u64) -> (r: bool)
    ensures
        r == v@.contains(x),
{
    let mut i: usize = 0;
    while i < v.len()
        invariant
            0 <= i <= v@.len(),
            forall|j: int| 0 <= j < i ==> v@[j] != x,
        decreases v@.len() - i,
    {
        if v[i] == x {
            return true;
        }
        i += 1;
    }
    false
}

/// Whether all elements of `v` are pairwise distinct.
pub fn vec_all_distinct_u64(v: &Vec<u64>) -> (r: bool)
    ensures
        r == elems_distinct(v@),
{
    let mut i: usize = 0;
    while i < v.len()
        invariant
            0 <= i <= v@.len(),
            forall|a: int, b: int| 0 <= a < b < i ==> v@[a] != v@[b],
        decreases v@.len() - i,
    {
        let mut j: usize = 0;
        while j < i
            invariant
                0 <= j <= i < v@.len(),
                forall|a: int| 0 <= a < j ==> v@[a] != v@[i as int],
            decreases i - j,
        {
            if v[j] == v[i] {
                return false;
            }
            j += 1;
        }
        i += 1;
    }
    true
}

} // verus!
