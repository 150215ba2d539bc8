//! The two set structures a run inserts into: a hash-based set whose
//! hashing strategy is chosen per run, and an order-based set. Both hold
//! unsigned integers, retain no duplicates, and only ever grow.

use vstd::prelude::*;

use crate::config::HashStrategy;
use std::collections::HashSet;
use std::hash::RandomState;

verus! {

broadcast use
    vstd::std_specs::hash::group_hash_axioms,
    vstd::std_specs::btree::group_btree_axioms,
    vstd::laws_cmp::group_laws_cmp;

/// The `ahash` crate's hasher factory. Opaque: the library relies on it
/// only through `ahash_insert`.
#[verifier::external_type_specification]
#[verifier::external_body]
pub struct ExAHashRandomState(ahash::RandomState);

/// Relies on `std::collections::HashSet::insert` together with
/// `ahash::RandomState`: `ahash`'s hashers hash equal keys equally, so the
/// insertion adds the value to the set's contents and reports whether it
/// was absent before.
#[verifier::external_body]
fn ahash_insert(s: &mut HashSet<u64, ahash::RandomState>, v: u64) -> (newly: bool)
    ensures
        final(s)@ == old(s)@.insert(v),
        newly == !old(s)@.contains(v),
{
    s.insert(v)
}

/// The hash-based structure of a run: a hash set of unsigned integers
/// dispatched over the configured hashing strategy.
pub enum StrategySet {
    /// Backed by the standard library's default hasher.
    Sip13(HashSet<u64, RandomState>),
    /// Backed by the `ahash` crate's hasher.
    AHash(HashSet<u64, ahash::RandomState>),
}

impl StrategySet {
    /// The mathematical contents of the set.
    pub open spec fn contents(self) -> Set<u64> {
        match self {
            StrategySet::Sip13(s) => s@,
            StrategySet::AHash(s) => s@,
        }
    }

    /// The strategy the set was built with.
    pub open spec fn strategy(self) -> HashStrategy {
        match self {
            StrategySet::Sip13(_) => HashStrategy::Sip13,
            StrategySet::AHash(_) => HashStrategy::AHash,
        }
    }

    /// A fresh, empty set backed by the chosen hashing strategy.
    pub fn empty(strategy: HashStrategy) -> (r: StrategySet)
        ensures
            r.contents() == Set::<u64>::empty(),
            r.strategy() == strategy,
    {
        match strategy {
            HashStrategy::Sip13 => StrategySet::Sip13(HashSet::default()),
            HashStrategy::AHash => StrategySet::AHash(HashSet::default()),
        }
    }

    /// Insert one value: the contents grow by exactly that value (a no-op
    /// if it is already present), and the result says whether it was new.
    pub fn insert(&mut self, v: u64) -> (newly: bool)
        ensures
            final(self).contents() == old(self).contents().insert(v),
            final(self).strategy() == old(self).strategy(),
            newly == !old(self).contents().contains(v),
    {
        match self {
            StrategySet::Sip13(s) => s.insert(v),
            StrategySet::AHash(s) => ahash_insert(s, v),
        }
    }
}

} // verus!
