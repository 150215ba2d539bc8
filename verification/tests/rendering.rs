use insertion_bench::config::mode_token;
use insertion_bench::config::strategy_label;
use insertion_bench::config::structure_token;
use insertion_bench::config::HashStrategy;
use insertion_bench::writer::format_decimal;
use insertion_bench::writer::render_output;

#[test]
fn durations_render_one_decimal_per_line_with_a_trailing_newline() {
    let times: Vec<u128> = vec![0, 5, 123456789];
    let rendered = render_output(&times);
    assert_eq!(rendered, b"0\n5\n123456789\n".to_vec());
}

#[test]
fn an_empty_record_renders_as_the_bare_terminator() {
    let rendered = render_output(&Vec::new());
    assert_eq!(rendered, b"\n".to_vec());
}

#[test]
fn decimal_formatting_matches_the_standard_rendering() {
    for n in [0u128, 1, 9, 10, 431, 999_999, u128::MAX] {
        assert_eq!(format_decimal(n), n.to_string().into_bytes());
    }
}

#[test]
fn every_rendered_line_parses_back_to_its_duration() {
    let times: Vec<u128> = vec![3, 0, 77, 1_000_000_000_000, 42];
    let rendered = render_output(&times);
    let text = String::from_utf8(rendered).unwrap();
    let parsed: Vec<u128> = text.lines().map(|l| l.parse::<u128>().unwrap()).collect();
    assert_eq!(parsed, times);
}

#[test]
fn file_name_tokens_are_the_fixed_ones() {
    assert_eq!(mode_token(true), "random");
    assert_eq!(mode_token(false), "fixed");
    assert_eq!(strategy_label(HashStrategy::Sip13), "sip13");
    assert_eq!(strategy_label(HashStrategy::AHash), "ahash");
    assert_eq!(structure_token(true), "hash");
    assert_eq!(structure_token(false), "tree");
}
