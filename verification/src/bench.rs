//! The timed insertion loop: drive the sample sequence into the two set
//! structures in lockstep, record each insertion's wall-clock duration, and
//! stop early once either structure's accumulated measured time reaches the
//! per-structure budget.

use vstd::prelude::*;

use crate::clock::clock_elapsed;
use crate::clock::clock_now;
use crate::clock::duration_nanos;
use crate::config::RunConfig;
use crate::gen::generate_samples;
use crate::sets::StrategySet;
use crate::writer::lemma_output_line_count;
use crate::writer::newline_count;
use crate::writer::render_output;
use crate::writer::rendered_output;
use std::collections::BTreeSet;

verus! {

broadcast use
    vstd::std_specs::btree::group_btree_axioms,
    vstd::laws_cmp::group_laws_cmp;

/// The accumulated time, in nanoseconds, of a sequence of per-operation
/// durations.
pub open spec fn total_ns(s: Seq<u128>) -> int
    decreases s.len(),
{
    if s.len() == 0 {
        0
    } else {
        total_ns(s.drop_last()) + s.last()
    }
}

/// An accumulated time is never negative.
pub proof fn lemma_total_ns_nonneg(s: Seq<u128>)
    ensures
        total_ns(s) >= 0,
    decreases s.len(),
{
    if s.len() > 0 {
        lemma_total_ns_nonneg(s.drop_last());
    }
}

/// Appending one duration adds it to the accumulated time.
pub proof fn lemma_total_ns_push(s: Seq<u128>, d: u128)
    ensures
        total_ns(s.push(d)) == total_ns(s) + d,
{
    assert(s.push(d).drop_last() =~= s);
}

/// The per-insertion durations recorded by one run, and how many samples
/// the run worked through before its stop condition.
pub struct MeasuredTimes {
    /// Duration of each insertion into the hash-based structure.
    pub hash_times: Vec<u128>,
    /// Duration of each insertion into the order-based structure.
    pub tree_times: Vec<u128>,
    /// The processed-count: how many iterations the loop completed.
    pub processed: usize,
}

/// What the timed insertion loop guarantees of its record, whatever
/// durations the clock handed back. `hash` and `tree` are the recorded
/// duration sequences, `processed` the processed-count, `n` the number of
/// samples, and `budget` the per-structure budget in nanoseconds.
///
/// The two structures advance in lockstep, so both sequences have exactly
/// `processed` entries. The stop condition is only checked after an
/// iteration completes, so the first sample is always processed. The stop
/// policy is monotonic: strictly before every completed iteration both
/// accumulated times were still under the budget, and the loop fell short
/// of the full sample sequence only because some structure's accumulated
/// time reached the budget.
pub open spec fn run_complete(
    hash: Seq<u128>,
    tree: Seq<u128>,
    processed: int,
    n: int,
    budget: u128,
) -> bool {
    &&& 0 <= processed <= n
    &&& n > 0 ==> processed >= 1
    &&& hash.len() == processed
    &&& tree.len() == processed
    &&& forall|j: int|
        0 < j < processed ==> total_ns(#[trigger] hash.take(j)) < budget && total_ns(
            tree.take(j),
        ) < budget
    &&& processed < n ==> total_ns(hash) >= budget || total_ns(tree) >= budget
}

/// The elements of a sample sequence's prefix of length `k`, as a set.
pub open spec fn prefix_elems(data: Seq<u64>, k: int) -> Set<u64> {
    data.take(k).to_set()
}

/// Appending one element to a sequence adds it to the element set.
proof fn lemma_to_set_push(s: Seq<u64>, v: u64)
    ensures
        s.push(v).to_set() == s.to_set().insert(v),
{
    assert forall|x: u64| s.push(v).to_set().contains(x) implies s.to_set().insert(v).contains(
        x,
    ) by {
        let k = choose|k: int| 0 <= k < s.push(v).len() && s.push(v)[k] == x;
        if k < s.len() {
            assert(s[k] == x);
        } else {
            assert(x == v);
        }
    }
    assert forall|x: u64| s.to_set().insert(v).contains(x) implies s.push(v).to_set().contains(
        x,
    ) by {
        if x == v {
            assert(s.push(v)[s.len() as int] == x);
        } else {
            let k = choose|k: int| 0 <= k < s.len() && s[k] == x;
            assert(s.push(v)[k] == x);
        }
    }
    assert(s.push(v).to_set() =~= s.to_set().insert(v));
}

/// Drive up to `data.len()` insertion attempts into both structures, in
/// sample order and in lockstep, measuring each attempt's wall-clock
/// duration. After each iteration, if either structure's accumulated
/// measured time has reached `budget_ns`, the loop stops; the iteration
/// that crossed the budget is still part of the record.
///
/// A duplicate sample still executes and times a full insertion attempt,
/// though the contents do not change: the structures end up holding
/// exactly their old contents plus the elements of the processed prefix.
pub fn run_measurement(
    data: &Vec<u64>,
    budget_ns: u128,
    hset: &mut StrategySet,
    oset: &mut BTreeSet<u64>,
) -> (r: MeasuredTimes)
    ensures
        run_complete(
            r.hash_times@,
            r.tree_times@,
            r.processed as int,
            data@.len() as int,
            budget_ns,
        ),
        final(hset).contents() == old(hset).contents() + prefix_elems(data@, r.processed as int),
        final(hset).strategy() == old(hset).strategy(),
        final(oset)@ == old(oset)@ + prefix_elems(data@, r.processed as int),
{
    let ghost orig_hash = hset.contents();
    let ghost orig_tree = oset@;
    let mut hash_times: Vec<u128> = Vec::new();
    let mut tree_times: Vec<u128> = Vec::new();
    let mut total_hash: u128 = 0;
    let mut total_tree: u128 = 0;
    let n = data.len();
    let mut i: usize = 0;
    let mut stopped: bool = false;

    proof {
        assert(data@.take(0).to_set() =~= Set::<u64>::empty());
        assert(orig_hash + prefix_elems(data@, 0) =~= orig_hash);
        assert(orig_tree + prefix_elems(data@, 0) =~= orig_tree);
    }

    while i < n && !stopped
        invariant
            i <= n,
            n == data@.len(),
            hash_times@.len() == i,
            tree_times@.len() == i,
            total_hash as int == if total_ns(hash_times@) > u128::MAX as int {
                u128::MAX as int
            } else {
                total_ns(hash_times@)
            },
            total_tree as int == if total_ns(tree_times@) > u128::MAX as int {
                u128::MAX as int
            } else {
                total_ns(tree_times@)
            },
            forall|j: int|
                0 < j < i ==> total_ns(#[trigger] hash_times@.take(j)) < budget_ns && total_ns(
                    tree_times@.take(j),
                ) < budget_ns,
            !stopped && i > 0 ==> total_ns(hash_times@) < budget_ns && total_ns(tree_times@)
                < budget_ns,
            stopped ==> i > 0 && (total_ns(hash_times@) >= budget_ns || total_ns(tree_times@)
                >= budget_ns),
            hset.contents() == orig_hash + prefix_elems(data@, i as int),
            hset.strategy() == old(hset).strategy(),
            oset@ == orig_tree + prefix_elems(data@, i as int),
        decreases n - i,
    {
        let val = data[i];
        let ghost pre_hash = hash_times@;
        let ghost pre_tree = tree_times@;

        let hash_start = clock_now();
        hset.insert(val);
        let hash_span = clock_elapsed(&hash_start);
        let hash_ns = duration_nanos(&hash_span);
        hash_times.push(hash_ns);
        total_hash = total_hash.saturating_add(hash_ns);

        let tree_start = clock_now();
        oset.insert(val);
        let tree_span = clock_elapsed(&tree_start);
        let tree_ns = duration_nanos(&tree_span);
        tree_times.push(tree_ns);
        total_tree = total_tree.saturating_add(tree_ns);

        proof {
            lemma_total_ns_push(pre_hash, hash_ns);
            lemma_total_ns_push(pre_tree, tree_ns);
            lemma_total_ns_nonneg(pre_hash);
            lemma_total_ns_nonneg(pre_tree);
            assert(hash_times@.take(i as int) =~= pre_hash);
            assert(tree_times@.take(i as int) =~= pre_tree);
            assert forall|j: int| 0 < j < i + 1 implies total_ns(
                #[trigger] hash_times@.take(j),
            ) < budget_ns && total_ns(tree_times@.take(j)) < budget_ns by {
                assert(hash_times@.take(j) =~= pre_hash.take(j));
                assert(tree_times@.take(j) =~= pre_tree.take(j));
                if j < i {
                } else {
                    assert(pre_hash.take(j) =~= pre_hash);
                    assert(pre_tree.take(j) =~= pre_tree);
                }
            }
            assert(data@.take(i + 1) =~= data@.take(i as int).push(data@[i as int]));
            lemma_to_set_push(data@.take(i as int), data@[i as int]);
            assert(orig_hash + prefix_elems(data@, i + 1) =~= (orig_hash + prefix_elems(
                data@,
                i as int,
            )).insert(data@[i as int]));
            assert(orig_tree + prefix_elems(data@, i + 1) =~= (orig_tree + prefix_elems(
                data@,
                i as int,
            )).insert(data@[i as int]));
        }

        i = i + 1;
        if total_tree >= budget_ns || total_hash >= budget_ns {
            stopped = true;
        }
    }

    MeasuredTimes { hash_times, tree_times, processed: i }
}

/// The processed-count of a completed run lies between 0 and the sample
/// count, and both rendered outputs hold exactly that many lines — one
/// newline terminator per processed sample, with an empty record rendering
/// as the single bare terminator.
pub proof fn lemma_outcome_line_count(
    hash: Seq<u128>,
    tree: Seq<u128>,
    processed: int,
    n: int,
    budget: u128,
)
    requires
        run_complete(hash, tree, processed, n, budget),
    ensures
        0 <= processed <= n,
        processed > 0 ==> newline_count(rendered_output(hash)) == processed && newline_count(
            rendered_output(tree),
        ) == processed,
        processed == 0 ==> newline_count(rendered_output(hash)) == 1 && newline_count(
            rendered_output(tree),
        ) == 1,
{
    lemma_output_line_count(hash);
    lemma_output_line_count(tree);
}

/// Everything one run leaves behind: the two duration records, the
/// processed-count, and the two rendered outputs ready to be written out.
pub struct RunOutcome {
    /// Duration of each insertion into the hash-based structure.
    pub hash_times: Vec<u128>,
    /// Duration of each insertion into the order-based structure.
    pub tree_times: Vec<u128>,
    /// How many samples the run worked through.
    pub processed: usize,
    /// The hash-based record, rendered as newline-delimited decimal text.
    pub hash_output: Vec<u8>,
    /// The order-based record, rendered as newline-delimited decimal text.
    pub tree_output: Vec<u8>,
}

/// Execute one full, isolated run: generate the configured sample
/// sequence, create the two structures fresh, drive the timed insertion
/// loop, and render both duration records. Writing the rendered bytes to
/// their destinations is the caller's business.
pub fn execute_run(config: &RunConfig) -> (r: RunOutcome)
    requires
        config.num_elements <= u64::MAX,
    ensures
        run_complete(
            r.hash_times@,
            r.tree_times@,
            r.processed as int,
            config.num_elements as int,
            config.budget_ns,
        ),
        r.hash_output@ == rendered_output(r.hash_times@),
        r.tree_output@ == rendered_output(r.tree_times@),
{
    let data = generate_samples(config.seed, config.num_elements, config.random_data);
    let mut hset = StrategySet::empty(config.strategy);
    let mut oset: BTreeSet<u64> = BTreeSet::new();
    let times = run_measurement(&data, config.budget_ns, &mut hset, &mut oset);
    let hash_output = render_output(&times.hash_times);
    let tree_output = render_output(&times.tree_times);
    RunOutcome {
        hash_times: times.hash_times,
        tree_times: times.tree_times,
        processed: times.processed,
        hash_output,
        tree_output,
    }
}

} // verus!
