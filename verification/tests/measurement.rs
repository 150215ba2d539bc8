use std::collections::BTreeSet;

use insertion_bench::bench::execute_run;
use insertion_bench::bench::run_measurement;
use insertion_bench::config::HashStrategy;
use insertion_bench::config::RunConfig;
use insertion_bench::sets::StrategySet;

const THREE_SECONDS_NS: u128 = 3_000_000_000;

fn lines_of(bytes: &[u8]) -> Vec<String> {
    let text = String::from_utf8(bytes.to_vec()).unwrap();
    text.split('\n').map(|s| s.to_string()).collect()
}

#[test]
fn full_run_of_a_thousand_samples_processes_them_all() {
    let config = RunConfig {
        strategy: HashStrategy::Sip13,
        random_data: true,
        seed: 431,
        num_elements: 1000,
        budget_ns: THREE_SECONDS_NS,
    };
    let outcome = execute_run(&config);
    assert_eq!(outcome.processed, 1000);
    assert_eq!(outcome.hash_times.len(), 1000);
    assert_eq!(outcome.tree_times.len(), 1000);

    for output in [&outcome.hash_output, &outcome.tree_output] {
        let segments = lines_of(output);
        // the final newline terminator leaves one empty trailing segment
        assert_eq!(segments.len(), 1001);
        assert_eq!(segments[1000], "");
        for line in &segments[..1000] {
            assert!(!line.is_empty());
            line.parse::<u128>().unwrap();
        }
    }
}

#[test]
fn full_run_with_the_ahash_strategy_behaves_the_same_way() {
    let config = RunConfig {
        strategy: HashStrategy::AHash,
        random_data: false,
        seed: 431,
        num_elements: 1000,
        budget_ns: THREE_SECONDS_NS,
    };
    let outcome = execute_run(&config);
    assert_eq!(outcome.processed, 1000);
    let segments = lines_of(&outcome.hash_output);
    assert_eq!(segments.len(), 1001);
    for line in &segments[..1000] {
        line.parse::<u128>().unwrap();
    }
}

#[test]
fn zero_budget_stops_after_the_first_iteration() {
    let config = RunConfig {
        strategy: HashStrategy::Sip13,
        random_data: true,
        seed: 1,
        num_elements: 100,
        budget_ns: 0,
    };
    let outcome = execute_run(&config);
    assert_eq!(outcome.processed, 1);
    assert_eq!(outcome.hash_times.len(), 1);
    assert_eq!(outcome.tree_times.len(), 1);
}

#[test]
fn reaching_the_budget_stops_the_loop_with_the_total_at_or_over_it() {
    let config = RunConfig {
        strategy: HashStrategy::Sip13,
        random_data: true,
        seed: 5,
        num_elements: 1_000_000,
        budget_ns: 50_000,
    };
    let outcome = execute_run(&config);
    let k = outcome.processed;
    assert!(0 < k && k <= 1_000_000);
    if k < 1_000_000 {
        let hash_total: u128 = outcome.hash_times.iter().sum();
        let tree_total: u128 = outcome.tree_times.iter().sum();
        assert!(hash_total >= 50_000 || tree_total >= 50_000);
        // strictly before the final iteration, both totals were under budget
        let hash_prefix: u128 = outcome.hash_times[..k - 1].iter().sum();
        let tree_prefix: u128 = outcome.tree_times[..k - 1].iter().sum();
        assert!(hash_prefix < 50_000 && tree_prefix < 50_000);
    }
}

#[test]
fn empty_sample_sequence_processes_nothing_and_emits_the_bare_terminator() {
    let config = RunConfig {
        strategy: HashStrategy::AHash,
        random_data: true,
        seed: 431,
        num_elements: 0,
        budget_ns: THREE_SECONDS_NS,
    };
    let outcome = execute_run(&config);
    assert_eq!(outcome.processed, 0);
    assert_eq!(outcome.hash_output, b"\n".to_vec());
    assert_eq!(outcome.tree_output, b"\n".to_vec());
}

#[test]
fn duplicates_are_timed_but_not_retained() {
    let data: Vec<u64> = vec![1, 2, 2, 3, 1];
    let mut hset = StrategySet::empty(HashStrategy::Sip13);
    let mut oset: BTreeSet<u64> = BTreeSet::new();
    let times = run_measurement(&data, THREE_SECONDS_NS, &mut hset, &mut oset);
    assert_eq!(times.processed, 5);
    assert_eq!(times.hash_times.len(), 5);
    assert_eq!(times.tree_times.len(), 5);
    assert_eq!(oset.len(), 3);
    assert_eq!(oset.iter().copied().collect::<Vec<u64>>(), vec![1, 2, 3]);
}

#[test]
fn strategy_sets_report_whether_a_value_was_new() {
    for strategy in [HashStrategy::Sip13, HashStrategy::AHash] {
        let mut s = StrategySet::empty(strategy);
        assert!(s.insert(5));
        assert!(!s.insert(5));
        assert!(s.insert(6));
    }
}
