use insertion_bench::gen::generate_samples;

#[test]
fn random_mode_is_deterministic_for_a_fixed_seed() {
    let a = generate_samples(431, 256, true);
    let b = generate_samples(431, 256, true);
    assert_eq!(a, b);
}

#[test]
fn rerunning_with_identical_configuration_gives_identical_samples() {
    let first = generate_samples(7, 100, true);
    for _ in 0..3 {
        let again = generate_samples(7, 100, true);
        assert_eq!(first, again);
    }
}

#[test]
fn random_mode_draws_from_the_stream_rather_than_echoing_indices() {
    let random = generate_samples(431, 64, true);
    let sequential = generate_samples(431, 64, false);
    assert_ne!(random, sequential);
    assert!(random.iter().any(|&v| v != random[0]));
}

#[test]
fn unique_sequential_mode_with_five_elements_counts_from_zero() {
    let v = generate_samples(431, 5, false);
    assert_eq!(v, vec![0, 1, 2, 3, 4]);
}

#[test]
fn unique_sequential_mode_is_strictly_increasing_and_distinct() {
    let v = generate_samples(99, 1000, false);
    assert_eq!(v.len(), 1000);
    for i in 1..v.len() {
        assert!(v[i - 1] < v[i]);
    }
}

#[test]
fn generation_of_zero_elements_is_empty() {
    assert_eq!(generate_samples(431, 0, true), Vec::<u64>::new());
    assert_eq!(generate_samples(431, 0, false), Vec::<u64>::new());
}
