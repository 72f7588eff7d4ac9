use samp::bernoulli::ALWAYS;
use samp::config::{select_mode, ConfigError, Mode};
use samp::output::{after_write, exit_status, SinkStep, WriteOutcome};
use samp::random::generator_for;
use rand::rngs::StdRng;
use samp::reservoir::reservoir_sample;
use samp::sampler::sample_lines;
use std::collections::HashSet;

fn seeded_rng(seed: u64) -> StdRng {
    generator_for(Some(seed)).unwrap()
}

fn entropy_rng() -> StdRng {
    generator_for(None).expect("no entropy")
}

fn lines_of(text: &str) -> Vec<String> {
    text.lines().map(|l| l.to_string()).collect()
}

fn threshold(p: f64) -> u64 {
    (p * ALWAYS as f64).ceil() as u64
}

#[test]
fn test_reservoir_sampling_properties() {
    let input_data = "a\nb\nc\nd\ne\nf\ng\nh\ni\nj\n";
    let k = 5;
    let seed = 12345;

    let run_sample = || reservoir_sample(lines_of(input_data), k, seeded_rng(seed));

    let sample1 = run_sample();
    let sample2 = run_sample();

    assert_eq!(sample1.len(), k);
    assert_eq!(sample2.len(), k);

    let input_set: HashSet<_> = input_data.lines().collect();
    for item in &sample1 {
        assert!(input_set.contains(&item.as_str()));
    }

    assert_eq!(sample1, sample2);
}

#[test]
fn test_k_greater_than_input_len() {
    let input_data = "a\nb\nc\nd\n";
    let k = 6;
    let seed = 17;

    let sample = reservoir_sample(lines_of(input_data), k, seeded_rng(seed));

    let input_lines: Vec<_> = input_data.lines().collect();
    assert_eq!(sample.len(), input_lines.len());

    let sample_set: HashSet<_> = sample.iter().collect();
    for line in input_lines {
        assert!(sample_set.contains(&line.to_string()));
    }
}

#[test]
fn test_preserve_headers() {
    let input = "h1\nh2\na\nb\nc\nd\n";
    let out = sample_lines(lines_of(input), 2, Mode::FixedSize(2), entropy_rng());
    let mut lines = out.iter().map(|l| l.as_str());
    assert_eq!(lines.next(), Some("h1"));
    assert_eq!(lines.next(), Some("h2"));
    let sampled: Vec<&str> = lines.collect();
    assert_eq!(sampled.len(), 2);
    for &line in &sampled {
        assert!(input.contains(line));
    }
}

#[test]
fn test_stdin_behavior() {
    let input_data = "a\nb\nc\nd\ne\n";
    let expected_sample_size = 3;
    let out = sample_lines(lines_of(input_data), 0, Mode::FixedSize(expected_sample_size), entropy_rng());
    assert_eq!(out.len(), expected_sample_size);
    for line in &out {
        assert!(input_data.contains(line.as_str()));
    }
}

#[test]
fn test_pipeline_behavior() {
    let input_data = "a\nb\nc\nd\ne\n";
    let sample_size = 4;
    let out = sample_lines(lines_of(input_data), 0, Mode::FixedSize(sample_size), entropy_rng());
    assert_eq!(out.len(), sample_size);
    // A reader that closes early ends the run successfully.
    let step = after_write(WriteOutcome::BrokenPipe);
    assert_eq!(step, SinkStep::StopSuccess);
    assert_eq!(exit_status(step), 0);
}

#[test]
fn test_file_input() {
    let input_data = "line1\nline2\nline3\nline4\nline5\n";
    let out = sample_lines(lines_of(input_data), 0, Mode::FixedSize(3), seeded_rng(17));
    assert_eq!(out.len(), 3);
    for line in &out {
        assert!(input_data.contains(line.as_str()));
    }
}

#[test]
fn test_probability_sample_reproducibility() {
    let input_data = "a\nb\nc\nd\ne\nf\ng\nh\n";
    let expected_output = vec!["b", "f", "g"];
    let out = sample_lines(lines_of(input_data), 0, Mode::Probability(threshold(0.5)), seeded_rng(17));
    let result_lines: Vec<&str> = out.iter().map(|l| l.as_str()).collect();
    assert_eq!(result_lines, expected_output);
}

#[test]
fn test_probability_sample_with_headers() {
    let input_data = "HEADER1\nHEADER2\na\nb\nc\nd\ne\n";
    let out = sample_lines(lines_of(input_data), 2, Mode::Probability(threshold(0.6)), seeded_rng(17));
    let mut lines = out.iter().map(|l| l.as_str());
    assert_eq!(lines.next(), Some("HEADER1"));
    assert_eq!(lines.next(), Some("HEADER2"));
    let sampled: Vec<&str> = lines.collect();
    let valid_lines = ["a", "b", "c", "d", "e"];
    for line in &sampled {
        assert!(valid_lines.contains(line), "Sampled line '{}' not in valid input set", line);
    }
}

#[test]
fn test_probability_sample_stdin_only() {
    let input_data = "x\ny\nz\n";
    let out = sample_lines(lines_of(input_data), 0, Mode::Probability(threshold(1.0)), entropy_rng());
    let expected: Vec<String> = lines_of(input_data);
    assert_eq!(out, expected);
}

#[test]
fn test_probability_sample_rate_zero() {
    let input_data = "a\nb\nc\nd\n";
    let out = sample_lines(lines_of(input_data), 0, Mode::Probability(threshold(0.0)), entropy_rng());
    assert!(out.is_empty(), "Expected no output, got {:?}", out);
}

#[test]
fn test_probability_sample_rate_one() {
    let input_data = "x\ny\nz\n";
    let out = sample_lines(lines_of(input_data), 0, Mode::Probability(threshold(1.0)), entropy_rng());
    let expected: Vec<String> = lines_of(input_data);
    assert_eq!(out, expected, "Expected all lines to be sampled");
}

#[test]
fn test_probability_sample_invalid_rate_too_large() {
    let r = select_mode(None, Some(threshold(1.5)));
    assert_eq!(r, Err(ConfigError::RateOutOfRange));
    let msg = r.unwrap_err().message();
    assert!(msg.contains("Rate must be between 0.0 and 1.0"), "Unexpected stderr: {}", msg);
}
