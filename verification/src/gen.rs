//! Sample generation: a deterministic sequence of unsigned integers, either
//! drawn from a seeded pseudorandom stream or forming the unique-sequential
//! pattern `0, 1, 2, ...`.

use vstd::prelude::*;

use rand::Rng;
use rand::SeedableRng;
use rand_chacha::ChaCha8Rng;

verus! {

/// A seeded ChaCha stream cipher used as a pseudorandom number generator.
/// Opaque here: every fact about it is carried by `SampleStream`'s contracts.
#[verifier::external_type_specification]
#[verifier::external_body]
pub struct ExChaCha8Rng(ChaCha8Rng);

/// The value of draw number `pos` (counting from 0) of the pseudorandom
/// stream seeded with `seed`: what the ChaCha cipher produces there. The
/// stream is a pure function of the seed, so the draw is determined by
/// `seed` and `pos` alone.
pub uninterp spec fn chacha_draw(seed: u64, pos: int) -> u64;

/// Relies on `rand_chacha::ChaCha8Rng::seed_from_u64` (of `SeedableRng`):
/// seeding is a pure function of the seed, and the fresh stream stands at
/// draw 0 of the stream that `chacha_draw(seed, _)` describes.
#[verifier::external_body]
fn chacha_seeded(seed: u64) -> (r: ChaCha8Rng)
{
    ChaCha8Rng::seed_from_u64(seed)
}

/// A seeded pseudorandom stream together with the number of draws already
/// taken from it.
pub(crate) struct SampleStream {
    rng: ChaCha8Rng,
    seed: Ghost<u64>,
    pos: Ghost<int>,
}

impl SampleStream {
    /// The seed the stream was created with.
    pub(crate) closed spec fn seed(self) -> u64 {
        self.seed@
    }

    /// How many draws were already taken.
    pub(crate) closed spec fn pos(self) -> int {
        self.pos@
    }

    /// Fresh stream standing at draw 0 of the stream seeded with `seed`.
    pub(crate) fn new(seed: u64) -> (r: SampleStream)
        ensures
            r.seed() == seed,
            r.pos() == 0,
    {
        SampleStream { rng: chacha_seeded(seed), seed: Ghost(seed), pos: Ghost(0int) }
    }

    /// Relies on `rand::Rng::gen_range` over the ChaCha stream: with the
    /// fixed half-open range `0..u64::MAX` the draw is a pure function of
    /// the seed and of the draw position, uniform over the range, and never
    /// panics (the range is not empty).
    #[verifier::external_body]
    pub(crate) fn next_value(&mut self) -> (r: u64)
        ensures
            final(self).seed() == old(self).seed(),
            final(self).pos() == old(self).pos() + 1,
            r == chacha_draw(old(self).seed(), old(self).pos()),
            r < u64::MAX,
    {
        self.rng.gen_range(0..u64::MAX)
    }
}

/// The sample sequence a run works through: element `i` is the `i`-th
/// pseudorandom draw in random mode, and `i` itself in unique-sequential
/// mode.
pub open spec fn sample_seq(seed: u64, n: nat, random_data: bool) -> Seq<u64> {
    Seq::new(
        n,
        |i: int|
            if random_data {
                chacha_draw(seed, i)
            } else {
                i as u64
            },
    )
}

/// Produce the sample sequence for a run: `n` values, fixed before the
/// timed loop starts.
pub fn generate_samples(seed: u64, n: usize, random_data: bool) -> (r: Vec<u64>)
    requires
        n <= u64::MAX,
    ensures
        r@ == sample_seq(seed, n as nat, random_data),
{
    let mut out: Vec<u64> = Vec::new();
    if random_data {
        let mut stream = SampleStream::new(seed);
        for i in 0..n
            invariant
                stream.seed() == seed,
                stream.pos() == i,
                out@.len() == i,
                forall|j: int| 0 <= j < i ==> out@[j] == chacha_draw(seed, j),
        {
            let v = stream.next_value();
            out.push(v);
        }
    } else {
        for i in 0..n
            invariant
                n <= u64::MAX,
                out@.len() == i,
                forall|j: int| 0 <= j < i ==> out@[j] == j as u64,
        {
            out.push(i as u64);
        }
    }
    proof {
        assert(out@ =~= sample_seq(seed, n as nat, random_data));
    }
    out
}

/// Generation is deterministic: two sample sequences made from the same
/// seed, the same count and the same mode are identical, element for
/// element, across any two runs.
pub proof fn lemma_generation_deterministic(
    s1: Seq<u64>,
    s2: Seq<u64>,
    seed: u64,
    n: nat,
    random_data: bool,
)
    requires
        s1 == sample_seq(seed, n, random_data),
        s2 == sample_seq(seed, n, random_data),
    ensures
        s1 == s2,
{
}

/// The unique-sequential mode yields exactly `n` values, the value at
/// index `i` is `i`, and the sequence is strictly increasing, so all of
/// its elements are distinct.
pub proof fn lemma_unique_sequential(seed: u64, n: nat)
    requires
        n <= u64::MAX,
    ensures
        sample_seq(seed, n, false).len() == n,
        forall|i: int| 0 <= i < n ==> sample_seq(seed, n, false)[i] == i as u64,
        forall|i: int, j: int|
            0 <= i < j < n ==> sample_seq(seed, n, false)[i] < sample_seq(seed, n, false)[j],
{
}

} // verus!
