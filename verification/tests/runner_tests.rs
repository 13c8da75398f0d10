use serde_json::Value;
use spice_framework::assertion::AssertionResult;
use spice_framework::runner::{
    attempt_timeout, run_mode, select_config, AttemptOutcome, ConsensusRun, RetryRun, RunMode,
};
use spice_framework::{suite, AgentConfig, Runner, RunnerConfig, SpiceError, TestCase};
use std::time::Duration;

fn result(passed: bool) -> AssertionResult {
    AssertionResult {
        description: "tool called".to_string(),
        passed,
        message: None,
        is_security: false,
    }
}

fn case(id: &str, name: Option<&str>, tags: &[&str]) -> TestCase {
    let mut b = spice_framework::test(id, "hello");
    if let Some(n) = name {
        b = b.name(n);
    }
    for t in tags {
        b = b.tag(t);
    }
    b.build()
}

fn config_with(filter: Option<&str>, tags: Option<Vec<&str>>) -> RunnerConfig {
    let mut c = RunnerConfig::default();
    c.filter = filter.map(|f| f.to_string());
    c.tag_filter = tags.map(|v| v.into_iter().map(|s| s.to_string()).collect());
    c
}

#[test]
fn runner_config_default_values() {
    let c = RunnerConfig::default();
    assert_eq!(c.concurrency, 4);
    assert_eq!(c.default_timeout, Duration::from_secs(60));
    assert!(c.filter.is_none());
    assert!(c.tag_filter.is_none());
    assert!(c.trace_dir.is_none());
    assert!(c.report_path.is_none());
    assert!(c.console_output);
}

#[test]
fn runner_new_keeps_config() {
    let r = Runner::new(config_with(Some("x"), None));
    assert_eq!(r.config.filter.as_deref(), Some("x"));
}

#[test]
fn matches_filter_without_filters_accepts_all() {
    let r = Runner::new(RunnerConfig::default());
    assert!(r.matches_filter(&case("basic-weather", None, &[])));
}

#[test]
fn matches_filter_by_id_or_name() {
    let r = Runner::new(config_with(Some("weather"), None));
    assert!(r.matches_filter(&case("basic-weather", None, &[])));
    assert!(r.matches_filter(&case("t1", Some("Basic weather lookup"), &[])));
    assert!(!r.matches_filter(&case("t1", Some("Basic Weather lookup"), &[])));
    assert!(!r.matches_filter(&case("greeting", None, &[])));
}

#[test]
fn matches_filter_by_tag() {
    let r = Runner::new(config_with(None, Some(vec!["security", "rbac"])));
    assert!(r.matches_filter(&case("a", None, &["basic", "rbac"])));
    assert!(!r.matches_filter(&case("b", None, &["basic"])));
    assert!(!r.matches_filter(&case("c", None, &[])));
}

#[test]
fn matches_filter_needs_both_filters() {
    let r = Runner::new(config_with(Some("multi"), Some(vec!["advanced"])));
    assert!(r.matches_filter(&case("multi-city", None, &["advanced"])));
    assert!(!r.matches_filter(&case("multi-city", None, &["basic"])));
    assert!(!r.matches_filter(&case("single-city", None, &["advanced"])));
}

#[test]
fn empty_tag_filter_rejects_everything() {
    let r = Runner::new(config_with(None, Some(vec![])));
    assert!(!r.matches_filter(&case("a", None, &["basic"])));
}

#[test]
fn select_tests_keeps_order_of_matching() {
    let r = Runner::new(config_with(Some("city"), None));
    let tests = vec![
        case("multi-city", None, &[]),
        case("greeting", None, &[]),
        case("one-city", None, &[]),
    ];
    let ids: Vec<String> = r.select_tests(tests).into_iter().map(|t| t.id).collect();
    assert_eq!(ids, vec!["multi-city", "one-city"]);
}

#[test]
fn select_tests_without_filter_keeps_all() {
    let r = Runner::new(RunnerConfig::default());
    let tests = vec![case("a", None, &[]), case("b", None, &[])];
    assert_eq!(r.select_tests(tests).len(), 2);
}

#[test]
fn suite_timeout_prefers_suite_default() {
    let r = Runner::new(RunnerConfig::default());
    assert_eq!(r.suite_timeout(Some(Duration::from_secs(5))), Duration::from_secs(5));
    assert_eq!(r.suite_timeout(None), Duration::from_secs(60));
}

#[test]
fn run_mode_picks_consensus_or_retries() {
    let t = spice_framework::test("a", "m").retries(1).build();
    assert!(matches!(run_mode(&t, 3), RunMode::Retry { max_retries: 3 }));
    assert!(matches!(run_mode(&t, 0), RunMode::Retry { max_retries: 1 }));
    let c = spice_framework::test("a", "m").consensus(5, 3).build();
    assert!(matches!(run_mode(&c, 2), RunMode::Consensus { runs: 5, required: 3 }));
    let mut half = spice_framework::test("a", "m").build();
    half.consensus_runs = Some(4);
    assert!(matches!(run_mode(&half, 0), RunMode::Retry { max_retries: 0 }));
}

#[test]
fn attempt_timeout_prefers_test_timeout() {
    let t = spice_framework::test("a", "m").timeout(Duration::from_secs(2)).build();
    assert_eq!(attempt_timeout(&t, Duration::from_secs(9)), Duration::from_secs(2));
    let u = spice_framework::test("a", "m").build();
    assert_eq!(attempt_timeout(&u, Duration::from_secs(9)), Duration::from_secs(9));
}

#[test]
fn select_config_falls_back_on_null() {
    let default = AgentConfig::new(Value::String("suite".to_string()));
    let t = spice_framework::test("a", "m").build();
    assert_eq!(select_config(&t, &default).data, Value::String("suite".to_string()));
    let own = spice_framework::test("a", "m").config(AgentConfig::new(Value::Bool(true))).build();
    assert_eq!(select_config(&own, &default).data, Value::Bool(true));
    let falsy = spice_framework::test("a", "m").config(AgentConfig::new(Value::Bool(false))).build();
    assert_eq!(select_config(&falsy, &default).data, Value::Bool(false));
    let text = spice_framework::test("a", "m").config(AgentConfig::new(Value::String("null".to_string()))).build();
    assert_eq!(select_config(&text, &default).data, Value::String("null".to_string()));
}

#[test]
fn retry_stops_at_first_pass() {
    let t = spice_framework::test("basic-weather", "What is the weather?").name("Basic").tag("basic").build();
    let mut run = RetryRun::new(2, Duration::from_secs(1));
    assert!(run.wants_attempt());
    run.record(AttemptOutcome::Completed(vec![result(true), result(false)]));
    assert!(run.wants_attempt());
    run.record(AttemptOutcome::Completed(vec![result(true)]));
    assert!(!run.wants_attempt());
    let report = run.report(&t, Duration::from_secs(3));
    assert!(report.passed);
    assert_eq!(report.attempts, 2);
    assert_eq!(report.assertion_results.len(), 1);
    assert!(report.error.is_none());
    assert_eq!(report.test_id, "basic-weather");
    assert_eq!(report.test_name.as_deref(), Some("Basic"));
    assert_eq!(report.tags, vec!["basic"]);
    assert_eq!(report.duration, Duration::from_secs(3));
}

#[test]
fn retry_exhausts_attempts_and_keeps_last_error() {
    let t = spice_framework::test("a", "m").build();
    let mut run = RetryRun::new(1, Duration::from_secs(5));
    run.record(AttemptOutcome::Completed(vec![result(false)]));
    run.record(AttemptOutcome::Failed(SpiceError::AgentError("boom".to_string())));
    assert!(!run.wants_attempt());
    let report = run.report(&t, Duration::ZERO);
    assert!(!report.passed);
    assert_eq!(report.attempts, 2);
    assert!(report.assertion_results.is_empty());
    assert_eq!(report.error.as_deref(), Some("Agent error: boom"));
}

#[test]
fn retry_timeout_message() {
    let t = spice_framework::test("a", "m").build();
    let mut run = RetryRun::new(0, Duration::from_secs(5));
    run.record(AttemptOutcome::TimedOut);
    assert!(!run.wants_attempt());
    let report = run.report(&t, Duration::ZERO);
    assert_eq!(report.error.as_deref(), Some("Timeout after 5s"));
    assert_eq!(report.attempts, 1);
}

#[test]
fn retry_failed_assertions_clear_error() {
    let t = spice_framework::test("a", "m").build();
    let mut run = RetryRun::new(1, Duration::from_secs(5));
    run.record(AttemptOutcome::TimedOut);
    run.record(AttemptOutcome::Completed(vec![result(false)]));
    let report = run.report(&t, Duration::ZERO);
    assert!(!report.passed);
    assert!(report.error.is_none());
    assert_eq!(report.assertion_results.len(), 1);
}

#[test]
fn retry_with_no_assertions_passes() {
    let t = spice_framework::test("a", "m").build();
    let mut run = RetryRun::new(0, Duration::from_secs(5));
    run.record(AttemptOutcome::Completed(vec![]));
    assert!(run.report(&t, Duration::ZERO).passed);
}

#[test]
fn consensus_stops_once_enough_passed() {
    let t = spice_framework::test("c", "m").consensus(3, 2).build();
    let mut run = ConsensusRun::new(3, 2);
    run.record(AttemptOutcome::Completed(vec![result(true)]));
    assert!(run.wants_run());
    run.record(AttemptOutcome::Completed(vec![result(true)]));
    assert!(!run.wants_run());
    let report = run.report(&t, Duration::ZERO);
    assert!(report.passed);
    assert_eq!(report.attempts, 3);
    assert!(report.error.is_none());
}

#[test]
fn consensus_failure_message() {
    let t = spice_framework::test("c", "m").build();
    let mut run = ConsensusRun::new(3, 2);
    run.record(AttemptOutcome::Completed(vec![result(true)]));
    run.record(AttemptOutcome::TimedOut);
    run.record(AttemptOutcome::Completed(vec![result(false)]));
    assert!(!run.wants_run());
    let report = run.report(&t, Duration::ZERO);
    assert!(!report.passed);
    assert_eq!(report.attempts, 3);
    assert_eq!(report.assertion_results.len(), 1);
    assert!(!report.assertion_results[0].passed);
    assert_eq!(report.error.as_deref(), Some("Consensus: 1/3 passed, needed 2"));
}

#[test]
fn consensus_errors_keep_last_results() {
    let t = spice_framework::test("c", "m").build();
    let mut run = ConsensusRun::new(2, 2);
    run.record(AttemptOutcome::Completed(vec![result(true), result(true)]));
    run.record(AttemptOutcome::Failed(SpiceError::ConfigError("x".to_string())));
    let report = run.report(&t, Duration::ZERO);
    assert_eq!(report.assertion_results.len(), 2);
    assert_eq!(report.error.as_deref(), Some("Consensus: 1/2 passed, needed 2"));
}

#[test]
fn consensus_requiring_none_makes_one_run() {
    let mut run = ConsensusRun::new(4, 0);
    assert!(run.wants_run());
    run.record(AttemptOutcome::TimedOut);
    assert!(!run.wants_run());
    let report = run.report(&spice_framework::test("z", "m").build(), Duration::ZERO);
    assert!(report.passed);
    assert_eq!(report.attempts, 4);
}

#[test]
fn consensus_with_no_runs() {
    let run = ConsensusRun::new(0, 1);
    assert!(!run.wants_run());
    let report = run.report(&spice_framework::test("z", "m").build(), Duration::ZERO);
    assert!(!report.passed);
    assert_eq!(report.attempts, 0);
    assert_eq!(report.error.as_deref(), Some("Consensus: 0/0 passed, needed 1"));
}

#[test]
fn consensus_verdict_matches_count_of_passing_runs() {
    // Law: stopping early never changes the verdict.
    let outcomes = [true, true, false, false];
    let mut run = ConsensusRun::new(4, 2);
    let mut k = 0;
    while run.wants_run() {
        run.record(AttemptOutcome::Completed(vec![result(outcomes[k])]));
        k += 1;
    }
    assert_eq!(k, 2);
    let passing = outcomes.iter().filter(|p| **p).count();
    assert_eq!(run.report(&spice_framework::test("z", "m").build(), Duration::ZERO).passed, passing >= 2);
}

#[test]
fn suite_and_test_builders() {
    let s = suite("Weather Agent Tests", vec![spice_framework::test("a", "m").build()]);
    assert_eq!(s.name, "Weather Agent Tests");
    assert_eq!(s.tests.len(), 1);
    assert!(s.default_timeout.is_none());
    assert_eq!(s.default_retries, 0);
    assert!(s.default_config.data.is_null());
    let t = spice_framework::test("basic-weather", "What is the weather in Chicago?").build();
    assert_eq!(t.id, "basic-weather");
    assert_eq!(t.user_message, "What is the weather in Chicago?");
    assert!(t.name.is_none());
    assert!(t.tags.is_empty());
    assert_eq!(t.retries, 0);
    assert!(t.timeout.is_none());
    assert!(t.config.data.is_null());
    assert!(t.consensus_runs.is_none() && t.consensus_required.is_none());
}

#[test]
fn builder_setters() {
    let t = spice_framework::test("a", "m").name("N").tag("x").tag("y").retries(2).consensus(3, 1).build();
    assert_eq!(t.name.as_deref(), Some("N"));
    assert_eq!(t.tags, vec!["x", "y"]);
    assert_eq!(t.retries, 2);
    assert_eq!(t.consensus_runs, Some(3));
    assert_eq!(t.consensus_required, Some(1));
    assert_eq!(t.id, "a");
}

#[test]
fn test_and_builder_new_agree() {
    let a = spice_framework::test("basic-weather", "What is the weather in Chicago?").build();
    let b = spice_framework::TestCaseBuilder::new("basic-weather", "What is the weather in Chicago?").build();
    assert_eq!(a.id, b.id);
    assert_eq!(a.user_message, b.user_message);
    assert_eq!(a.name, b.name);
    assert_eq!(a.tags, b.tags);
    assert_eq!(a.timeout, b.timeout);
    assert_eq!(a.retries, b.retries);
    assert_eq!(a.config.data, b.config.data);
    assert_eq!(a.consensus_runs, b.consensus_runs);
    assert_eq!(a.consensus_required, b.consensus_required);
}

#[test]
fn retry_with_largest_count_still_starts() {
    let mut run = RetryRun::new(usize::MAX, Duration::from_secs(1));
    assert!(run.wants_attempt());
    run.record(AttemptOutcome::Completed(vec![result(false)]));
    assert!(run.wants_attempt());
    run.record(AttemptOutcome::Completed(vec![result(true)]));
    assert!(!run.wants_attempt());
    assert_eq!(run.attempts, 2);
}

#[test]
fn plan_selects_tests_with_suite_defaults() {
    let mut cfg = RunnerConfig::default();
    cfg.filter = Some("city".to_string());
    let runner = Runner::new(cfg);
    let mut s = suite(
        "S",
        vec![
            spice_framework::test("multi-city", "m").retries(1).build(),
            spice_framework::test("greeting", "m").build(),
            spice_framework::test("one-city", "m").timeout(Duration::from_secs(3)).consensus(3, 2).build(),
        ],
    );
    s.default_retries = 2;
    s.default_config = AgentConfig::new(Value::Bool(true));
    let plan = runner.plan(s);
    assert_eq!(plan.suite_name, "S");
    let ids: Vec<&str> = plan.tests.iter().map(|t| t.id.as_str()).collect();
    assert_eq!(ids, vec!["multi-city", "one-city"]);
    assert_eq!(plan.default_timeout, Duration::from_secs(60));
    assert_eq!(plan.default_retries, 2);
    let first = plan.setup(&plan.tests[0]);
    assert_eq!(first.timeout, Duration::from_secs(60));
    assert!(matches!(first.mode, RunMode::Retry { max_retries: 2 }));
    let second = plan.setup(&plan.tests[1]);
    assert_eq!(second.timeout, Duration::from_secs(3));
    assert!(matches!(second.mode, RunMode::Consensus { runs: 3, required: 2 }));
    assert_eq!(plan.config_for(&plan.tests[0]).data, Value::Bool(true));
}

#[test]
fn plan_uses_suite_timeout() {
    let runner = Runner::new(RunnerConfig::default());
    let mut s = suite("S", vec![spice_framework::test("a", "m").build()]);
    s.default_timeout = Some(Duration::from_secs(7));
    let plan = runner.plan(s);
    assert_eq!(plan.default_timeout, Duration::from_secs(7));
    assert_eq!(plan.setup(&plan.tests[0]).timeout, Duration::from_secs(7));
}

#[test]
fn retry_io_error_message_in_report() {
    let t = spice_framework::test("a", "m").build();
    let mut run = RetryRun::new(0, Duration::from_secs(1));
    run.record(AttemptOutcome::Failed(SpiceError::Io(std::io::Error::new(std::io::ErrorKind::Other, "disk full"))));
    assert_eq!(run.report(&t, Duration::ZERO).error.as_deref(), Some("IO error: disk full"));
}
