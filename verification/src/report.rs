use vstd::prelude::*;
use std::time::Duration;

use vstd::string::*;

use crate::assertion::AssertionResult;
use crate::clock::{duration_from_secs, duration_of_secs, Timestamp};

verus! {

/// Result of a single test case.
#[derive(Debug, Clone)]
pub struct TestReport {
    pub test_id: String,
    pub test_name: Option<String>,
    pub tags: Vec<String>,
    pub passed: bool,
    pub attempts: usize,
    pub assertion_results: Vec<AssertionResult>,
    pub duration: Duration,
    pub error: Option<String>,
}

/// Result of an entire test suite.
#[derive(Debug, Clone)]
pub struct SuiteReport {
    pub suite_name: String,
    pub tests: Vec<TestReport>,
    pub total: usize,
    pub passed: usize,
    pub failed: usize,
    pub duration: Duration,
    pub timestamp: Timestamp,
}


/// Number of passed reports.
pub open spec fn count_passed(tests: Seq<TestReport>) -> nat
    decreases tests.len(),
{
    if tests.len() == 0 {
        0
    } else {
        count_passed(tests.drop_last()) + if tests.last().passed {
            1nat
        } else {
            0nat
        }
    }
}

/// The report of a task that panicked before it could report on its test.
pub fn panicked_report(detail: &str) -> (r: TestReport)
    ensures
        r.test_id@ == "unknown"@,
        r.test_name is None,
        r.tags@.len() == 0,
        !r.passed,
        r.attempts == 0,
        r.assertion_results@.len() == 0,
        r.duration == duration_of_secs(0),
        r.error matches Some(e) && e@ == "Task panicked: "@ + detail@,
{
    TestReport {
        test_id: String::from_str("unknown"),
        test_name: None,
        tags: Vec::new(),
        passed: false,
        attempts: 0,
        assertion_results: Vec::new(),
        duration: duration_from_secs(0),
        error: Some(String::from_str("Task panicked: ").concat(detail)),
    }
}

/// Number of passed reports of `tests`.
pub fn passed_count(tests: &Vec<TestReport>) -> (r: usize)
    ensures
        r == count_passed(tests@),
        r <= tests@.len(),
{
    let n = tests.len();
    let mut c: usize = 0;
    let mut i: usize = 0;
    while i < n
        invariant
            n == tests@.len(),
            i <= n,
            c == count_passed(tests@.take(i as int)),
            c <= i,
        decreases n - i,
    {
        assert(tests@.take(i + 1).drop_last() =~= tests@.take(i as int));
        if tests[i].passed {
            c = c + 1;
        }
        i = i + 1;
    }
    assert(tests@.take(n as int) =~= tests@);
    c
}

impl SuiteReport {
    /// The suite's report over the reports of the tests it ran, one report per test,
    /// stamped with `timestamp` (the time the caller read from the clock).
    pub fn assemble(suite_name: String, tests: Vec<TestReport>, duration: Duration, timestamp: Timestamp) -> (r:
        Self)
        ensures
            r.suite_name == suite_name,
            r.tests == tests,
            r.total == tests@.len(),
            r.passed == count_passed(tests@),
            r.failed == tests@.len() - count_passed(tests@),
            r.passed + r.failed == r.total,
            r.duration == duration,
            r.timestamp == timestamp,
    {
        let passed = passed_count(&tests);
        let total = tests.len();
        let failed = total - passed;
        SuiteReport { suite_name, tests, total, passed, failed, duration, timestamp }
    }
}

} // verus!
