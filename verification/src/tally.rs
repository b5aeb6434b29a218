//! Counting the entries of each stability.

use vstd::prelude::*;
use crate::entry::Entry;
use crate::stability::{
    calculate_stability, entry_stability, is_well_formed, well_formed, Stability,
};
use exhaustive_map::ExhaustiveMap;

verus! {

/// A count for each stability that an entry can have, none included.
///
/// The counts are kept in an `ExhaustiveMap`, which holds a value for every
/// key of its key type. Its keys here are `None` for no stability,
/// `Some(true)` for stable and `Some(false)` for unstable.
#[verifier::external_body]
pub struct StabilityCounts {
    map: ExhaustiveMap<Option<bool>, usize>,
}

/// What the map of a tally holds: the count under each key.
pub uninterp spec fn counts(tally: StabilityCounts) -> Map<Option<bool>, usize>;

/// `ExhaustiveMap::default`: a map that holds the default of `usize`, zero,
/// under every key.
#[verifier::external_body]
fn zero_counts() -> (tally: StabilityCounts)
    ensures
        forall|key: Option<bool>| #[trigger] counts(tally)[key] == 0,
{
    StabilityCounts { map: ExhaustiveMap::default() }
}

/// `ExhaustiveMap::index`: the value stored under `key`.
#[verifier::external_body]
fn count_at(tally: &StabilityCounts, key: Option<bool>) -> (n: usize)
    ensures
        n == counts(*tally)[key],
{
    tally.map[key]
}

/// `ExhaustiveMap::replace`: stores `n` under `key`, leaves what is stored
/// under the other keys, and returns what was stored under `key` before.
#[verifier::external_body]
fn replace_count(tally: &mut StabilityCounts, key: Option<bool>, n: usize) -> (was: usize)
    ensures
        counts(*final(tally)) == counts(*old(tally)).insert(key, n),
        was == counts(*old(tally))[key],
{
    tally.map.replace(key, n)
}

/// The key under which a stability is counted.
pub open spec fn key_of(stability: Option<Stability>) -> Option<bool> {
    match stability {
        None => None,
        Some(Stability::Stable) => Some(true),
        Some(Stability::Unstable) => Some(false),
    }
}

/// The number of entries of a list that have the given stability.
pub open spec fn occurrences(entries: Seq<Entry>, stability: Option<Stability>) -> nat
    decreases entries.len(),
{
    if entries.len() == 0 {
        0
    } else {
        occurrences(entries.drop_last(), stability) + if entry_stability(entries.last())
            == stability {
            1nat
        } else {
            0nat
        }
    }
}

proof fn lemma_occurrences_bound(entries: Seq<Entry>, stability: Option<Stability>)
    ensures
        occurrences(entries, stability) <= entries.len(),
    decreases entries.len(),
{
    if entries.len() > 0 {
        lemma_occurrences_bound(entries.drop_last(), stability);
    }
}

fn key_for(stability: Option<Stability>) -> (key: Option<bool>)
    ensures
        key == key_of(stability),
{
    match stability {
        None => None,
        Some(Stability::Stable) => Some(true),
        Some(Stability::Unstable) => Some(false),
    }
}

impl StabilityCounts {
    /// The count of the entries of a stability.
    pub open spec fn count(self, stability: Option<Stability>) -> nat {
        counts(self)[key_of(stability)] as nat
    }

    /// A tally of nothing.
    pub fn new() -> (tally: Self)
        ensures
            forall|stability: Option<Stability>| tally.count(stability) == 0,
    {
        zero_counts()
    }

    /// The count of the entries of a stability.
    pub fn get(&self, stability: Option<Stability>) -> (n: usize)
        ensures
            n == self.count(stability),
    {
        count_at(self, key_for(stability))
    }

    /// Counts one more entry of a stability, unless the count is at the
    /// greatest number already: then nothing changes, and the result says so.
    pub fn record(&mut self, stability: Option<Stability>) -> (counted: bool)
        ensures
            counted == (old(self).count(stability) < usize::MAX),
            forall|other: Option<Stability>|
                final(self).count(other) == old(self).count(other) + if counted && other
                    == stability {
                    1nat
                } else {
                    0nat
                },
    {
        let key = key_for(stability);
        let n = count_at(self, key);
        if n == usize::MAX {
            return false;
        }
        replace_count(self, key, n + 1);
        assert forall|other: Option<Stability>|
            final(self).count(other) == old(self).count(other) + if other == stability {
                1nat
            } else {
                0nat
            } by {
            assert(other != stability ==> key_of(other) != key);
        }
        true
    }
}

/// Counts the entries of each stability.
pub fn tally(entries: &Vec<Entry>) -> (counts: StabilityCounts)
    requires
        forall|i: int| 0 <= i < entries@.len() ==> well_formed(#[trigger] entries@[i]),
    ensures
        forall|stability: Option<Stability>|
            counts.count(stability) == occurrences(entries@, stability),
{
    let mut counts = StabilityCounts::new();
    let n: usize = entries.len();
    let mut i: usize = 0;
    while i < n
        invariant
            i <= n,
            n == entries@.len(),
            forall|i: int| 0 <= i < entries@.len() ==> well_formed(#[trigger] entries@[i]),
            forall|stability: Option<Stability>|
                counts.count(stability) == occurrences(entries@.take(i as int), stability),
        decreases n - i,
    {
        let stability = calculate_stability(&entries[i]);
        proof {
            lemma_occurrences_bound(entries@.take(i as int), stability);
            assert(entries@.take(i + 1).drop_last() =~= entries@.take(i as int));
        }
        counts.record(stability);
        i += 1;
    }
    assert(entries@.take(n as int) =~= entries@);
    counts
}

/// Whether every entry of a list is well formed.
pub open spec fn all_well_formed(entries: Seq<Entry>) -> bool {
    forall|i: int| 0 <= i < entries.len() ==> well_formed(#[trigger] entries[i])
}

/// Counts the entries of each stability, unless one of them is not well
/// formed.
pub fn try_tally(entries: &Vec<Entry>) -> (r: Option<StabilityCounts>)
    ensures
        r is Some <==> all_well_formed(entries@),
        r matches Some(counts) ==> forall|stability: Option<Stability>|
            counts.count(stability) == occurrences(entries@, stability),
{
    let n: usize = entries.len();
    let mut i: usize = 0;
    while i < n
        invariant
            i <= n,
            n == entries@.len(),
            forall|j: int| 0 <= j < i ==> well_formed(#[trigger] entries@[j]),
        decreases n - i,
    {
        if !is_well_formed(&entries[i]) {
            return None;
        }
        i += 1;
    }
    Some(tally(entries))
}

} // verus!
