//! Run configuration: which hashing strategy and which data distribution a
//! run uses, together with the fixed numeric parameters of the run.

use vstd::prelude::*;

verus! {

/// The hashing strategy used by the hash-based structure of a run.
#[derive(Clone, Copy, PartialEq, Eq, Structural, Debug)]
pub enum HashStrategy {
    /// The standard library's default hasher.
    Sip13,
    /// The `ahash` crate's hasher.
    AHash,
}

/// The configuration of one benchmark run. Immutable for the whole run.
#[derive(Clone, Copy)]
pub struct RunConfig {
    /// Which hashing strategy the hash-based structure uses.
    pub strategy: HashStrategy,
    /// True for pseudorandom samples, false for the unique-sequential ones.
    pub random_data: bool,
    /// Seed of the pseudorandom sample stream.
    pub seed: u64,
    /// How many samples to generate.
    pub num_elements: usize,
    /// Per-structure wall-clock budget, in nanoseconds.
    pub budget_ns: u128,
}

/// The fixed token that names the data distribution in an output file name.
pub fn mode_token(random_data: bool) -> (r: &'static str)
    ensures
        random_data ==> r@ == "random"@,
        !random_data ==> r@ == "fixed"@,
{
    if random_data {
        "random"
    } else {
        "fixed"
    }
}

/// The fixed label that names the hashing strategy in an output file name.
pub fn strategy_label(strategy: HashStrategy) -> (r: &'static str)
    ensures
        strategy is Sip13 ==> r@ == "sip13"@,
        strategy is AHash ==> r@ == "ahash"@,
{
    match strategy {
        HashStrategy::Sip13 => "sip13",
        HashStrategy::AHash => "ahash",
    }
}

/// The fixed token that names a structure kind in an output file name:
/// true selects the hash-based structure, false the ordered one.
pub fn structure_token(hash_based: bool) -> (r: &'static str)
    ensures
        hash_based ==> r@ == "hash"@,
        !hash_based ==> r@ == "tree"@,
{
    if hash_based {
        "hash"
    } else {
        "tree"
    }
}

} // verus!
