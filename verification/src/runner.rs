use vstd::prelude::*;
use std::path::PathBuf;
use std::time::Duration;

use vstd::string::*;

use crate::agent::AgentConfig;
use crate::assertion::{all_passed, all_results_passed, AssertionResult};
use crate::clock::{duration_from_secs, duration_of_secs};
use crate::error::{error_text, message_text, timeout_text, timeout_message, SpiceError};
use crate::json::{json_is_null, value_is_null};
use crate::report::TestReport;
use crate::test_case::{TestCase, TestSuite};
use crate::text::{
    contains_text, decimal, decimal_string, named_in, names_contain, text_contains,
};

verus! {

/// A filesystem path of std; opaque here.
#[verifier::external_type_specification]
#[verifier::external_body]
pub struct ExPathBuf(PathBuf);

/// Configuration for the test runner.
pub struct RunnerConfig {
    /// Max concurrent tests.
    pub concurrency: usize,
    /// Default timeout per test.
    pub default_timeout: Duration,
    /// Filter: only run tests whose id or name contains this substring.
    pub filter: Option<String>,
    /// Filter: only run tests with any of these tags.
    pub tag_filter: Option<Vec<String>>,
    /// Directory to write trace files.
    pub trace_dir: Option<PathBuf>,
    /// Path to write JSON report.
    pub report_path: Option<PathBuf>,
    /// Print console output.
    pub console_output: bool,
}

impl Default for RunnerConfig {
    fn default() -> (r: Self)
        ensures
            r.concurrency == 4,
            r.default_timeout == duration_of_secs(60),
            r.filter is None,
            r.tag_filter is None,
            r.trace_dir is None,
            r.report_path is None,
            r.console_output,
    {
        Self {
            concurrency: 4,
            default_timeout: duration_from_secs(60),
            filter: None,
            tag_filter: None,
            trace_dir: None,
            report_path: None,
            console_output: true,
        }
    }
}

/// The test runner.
pub struct Runner {
    pub config: RunnerConfig,
}

/// The test passes the text filter: its id, or its name, contains the filter text.
pub open spec fn passes_text_filter(filter: Option<String>, test: TestCase) -> bool {
    match filter {
        None => true,
        Some(f) => contains_text(test.id@, f@) || (test.name matches Some(n) && contains_text(
            n@,
            f@,
        )),
    }
}

/// The test passes the tag filter: one of its tags is among the filter's tags.
pub open spec fn passes_tag_filter(tag_filter: Option<Vec<String>>, test: TestCase) -> bool {
    match tag_filter {
        None => true,
        Some(tags) => exists|i: int|
            0 <= i < test.tags@.len() && named_in(tags@, #[trigger] test.tags@[i]@),
    }
}

/// The runner configured with `config` runs `test`.
pub open spec fn selected(config: RunnerConfig, test: TestCase) -> bool {
    passes_text_filter(config.filter, test) && passes_tag_filter(config.tag_filter, test)
}

/// The tests of `tests` that the runner configured with `config` runs, in order.
pub open spec fn selected_tests(config: RunnerConfig, tests: Seq<TestCase>) -> Seq<TestCase>
    decreases tests.len(),
{
    if tests.len() == 0 {
        Seq::empty()
    } else if selected(config, tests[0]) {
        seq![tests[0]] + selected_tests(config, tests.drop_first())
    } else {
        selected_tests(config, tests.drop_first())
    }
}

impl Runner {
    pub fn new(config: RunnerConfig) -> (r: Self)
        ensures
            r.config == config,
    {
        Self { config }
    }

    /// Whether the configured filters let `test` run.
    pub fn matches_filter(&self, test: &TestCase) -> (r: bool)
        ensures
            r == selected(self.config, *test),
    {
        if let Some(filter) = &self.config.filter {
            let id_match = text_contains(test.id.as_str(), filter.as_str());
            let name_match = match &test.name {
                Some(n) => text_contains(n.as_str(), filter.as_str()),
                None => false,
            };
            if !id_match && !name_match {
                return false;
            }
        }
        if let Some(tag_filter) = &self.config.tag_filter {
            let n = test.tags.len();
            let mut i: usize = 0;
            let mut any = false;
            while i < n
                invariant
                    n == test.tags@.len(),
                    i <= n,
                    any == exists|k: int|
                        0 <= k < i && named_in(tag_filter@, #[trigger] test.tags@[k]@),
                decreases n - i,
            {
                if names_contain(tag_filter.as_slice(), &test.tags[i]) {
                    any = true;
                }
                i = i + 1;
            }
            if !any {
                return false;
            }
        }
        true
    }

    /// The tests of a suite that this runner runs, in their order.
    pub fn select_tests(&self, tests: Vec<TestCase>) -> (r: Vec<TestCase>)
        ensures
            r@ == selected_tests(self.config, tests@),
    {
        let mut kept: Vec<TestCase> = Vec::new();
        let mut rest = tests;
        while rest.len() > 0
            invariant
                kept@ + selected_tests(self.config, rest@) == selected_tests(self.config, tests@),
            decreases rest@.len(),
        {
            let ghost before = rest@;
            let t = rest.remove(0);
            assert(rest@ =~= before.drop_first());
            if self.matches_filter(&t) {
                let ghost k = kept@;
                kept.push(t);
                assert(kept@ + selected_tests(self.config, rest@) =~= k + (seq![t]
                    + selected_tests(self.config, rest@)));
            }
        }
        assert(kept@ + selected_tests(self.config, rest@) =~= kept@);
        kept
    }

    /// The timeout of the suite's tests that set none of their own.
    pub fn suite_timeout(&self, suite_default: Option<Duration>) -> (r: Duration)
        ensures
            r == match suite_default {
                Some(d) => d,
                None => self.config.default_timeout,
            },
    {
        match suite_default {
            Some(d) => d,
            None => self.config.default_timeout,
        }
    }
}


/// What one run of the agent came to.
pub enum AttemptOutcome {
    /// The agent returned its output, on which the test's assertions gave these results.
    Completed(Vec<AssertionResult>),
    /// The agent returned an error.
    Failed(SpiceError),
    /// The run did not end within the timeout.
    TimedOut,
}

/// The run passed: the agent answered and every assertion passed.
pub open spec fn attempt_passed(o: AttemptOutcome) -> bool {
    o matches AttemptOutcome::Completed(rs) && all_results_passed(rs@)
}

/// Attempts made and verdict after the outcomes `outcomes` came in, in order, to a
/// test in retry mode with `max_retries` retries: an outcome counts only while an
/// attempt is due (none passed yet, and attempts left), as `RetryRun::record` takes them.
pub open spec fn retry_after(max_retries: nat, outcomes: Seq<AttemptOutcome>) -> (nat, bool)
    decreases outcomes.len(),
{
    if outcomes.len() == 0 {
        (0, false)
    } else {
        let prev = retry_after(max_retries, outcomes.drop_last());
        if !prev.1 && prev.0 <= max_retries {
            (prev.0 + 1, attempt_passed(outcomes.last()))
        } else {
            prev
        }
    }
}

/// Number of passing outcomes of `outcomes`.
pub open spec fn passing_count(outcomes: Seq<AttemptOutcome>) -> nat
    decreases outcomes.len(),
{
    if outcomes.len() == 0 {
        0
    } else {
        passing_count(outcomes.drop_last()) + if attempt_passed(outcomes.last()) {
            1nat
        } else {
            0nat
        }
    }
}

/// Runs made and passes counted after the outcomes `outcomes` came in, in order, to a
/// test in consensus mode: an outcome counts only while a run is due, as
/// `ConsensusRun::record` takes them.
pub open spec fn consensus_after(runs: nat, required: nat, outcomes: Seq<AttemptOutcome>) -> (
    nat,
    nat,
)
    decreases outcomes.len(),
{
    if outcomes.len() == 0 {
        (0, 0)
    } else {
        let prev = consensus_after(runs, required, outcomes.drop_last());
        if prev.0 < runs && (prev.0 == 0 || prev.1 < required) {
            (prev.0 + 1, prev.1 + if attempt_passed(outcomes.last()) {
                1nat
            } else {
                0nat
            })
        } else {
            prev
        }
    }
}

/// How a test is run.
pub enum RunMode {
    /// Up to `max_retries + 1` attempts, until one passes.
    Retry { max_retries: usize },
    /// `runs` runs (fewer once `required` of them passed); passes when `required` pass.
    Consensus { runs: usize, required: usize },
}

/// How `test` runs: consensus mode when it sets both consensus numbers; else retries,
/// as many as the larger of the test's and the suite's.
pub open spec fn mode_of(test: TestCase, default_retries: usize) -> RunMode {
    match (test.consensus_runs, test.consensus_required) {
        (Some(runs), Some(required)) => RunMode::Consensus { runs, required },
        _ => RunMode::Retry {
            max_retries: if test.retries >= default_retries {
                test.retries
            } else {
                default_retries
            },
        },
    }
}

/// The timeout of each run of `test`: its own, else the given default.
pub open spec fn timeout_of(test: TestCase, default_timeout: Duration) -> Duration {
    match test.timeout {
        Some(t) => t,
        None => default_timeout,
    }
}

/// How `test` runs (see `mode_of`).
pub fn run_mode(test: &TestCase, default_retries: usize) -> (r: RunMode)
    ensures
        r == mode_of(*test, default_retries),
{
    match (test.consensus_runs, test.consensus_required) {
        (Some(runs), Some(required)) => RunMode::Consensus { runs, required },
        _ => RunMode::Retry {
            max_retries: if test.retries >= default_retries {
                test.retries
            } else {
                default_retries
            },
        },
    }
}

/// The timeout of each run of `test`: its own, else the suite's default.
pub fn attempt_timeout(test: &TestCase, default_timeout: Duration) -> (r: Duration)
    ensures
        r == timeout_of(*test, default_timeout),
{
    match test.timeout {
        Some(t) => t,
        None => default_timeout,
    }
}

/// The configuration the agent gets for `test`: the suite's default when the test's
/// own data is JSON `null`, else the test's own.
pub fn select_config<'a>(test: &'a TestCase, default_config: &'a AgentConfig) -> (r:
    &'a AgentConfig)
    ensures
        *r == if json_is_null(test.config.data) {
            *default_config
        } else {
            test.config
        },
{
    if value_is_null(&test.config.data) {
        default_config
    } else {
        &test.config
    }
}

/// A copy of an optional string.
fn copy_opt_string(s: &Option<String>) -> (r: Option<String>)
    ensures
        r == *s,
{
    match s {
        Some(x) => Some(x.clone()),
        None => None,
    }
}

/// A copy of a list of strings.
fn copy_strings(v: &Vec<String>) -> (r: Vec<String>)
    ensures
        r@ == v@,
{
    let mut r: Vec<String> = Vec::new();
    let n = v.len();
    let mut i: usize = 0;
    while i < n
        invariant
            n == v@.len(),
            i <= n,
            r@ == v@.take(i as int),
        decreases n - i,
    {
        r.push(v[i].clone());
        assert(v@.take(i + 1) =~= v@.take(i as int).push(v@[i as int]));
        i = i + 1;
    }
    assert(v@.take(n as int) =~= v@);
    r
}

/// The attempts of a test in retry mode, as they come in.
pub struct RetryRun {
    pub max_retries: usize,
    pub timeout: Duration,
    /// Attempts made so far.
    pub attempts: usize,
    /// Some attempt passed; no attempt follows it.
    pub passed: bool,
    /// Assertion results of the last attempt (empty after an error or a timeout).
    pub last_results: Vec<AssertionResult>,
    /// Error of the last attempt, if it failed by one.
    pub last_error: Option<String>,
    /// What the attempts made so far came to, in order.
    pub history: Ghost<Seq<AttemptOutcome>>,
}

impl RetryRun {
    /// The state every run keeps: the attempts and verdict are those of the retry
    /// model over the outcomes taken in.
    pub open spec fn wf(self) -> bool {
        &&& self.attempts == self.history@.len()
        &&& (self.attempts as nat, self.passed) == retry_after(self.max_retries as nat, self.history@)
        &&& self.attempts <= self.max_retries + 1
        &&& self.passed ==> self.attempts >= 1 && self.last_error is None
    }

    /// Another attempt is due: none passed yet and attempts are left.
    pub open spec fn attempt_due(self) -> bool {
        !self.passed && self.attempts <= self.max_retries
    }

    /// No attempt made yet.
    pub fn new(max_retries: usize, timeout: Duration) -> (r: Self)
        ensures
            r.wf(),
            r.max_retries == max_retries,
            r.timeout == timeout,
            r.attempts == 0,
            !r.passed,
            r.last_results@.len() == 0,
            r.last_error is None,
            r.history@.len() == 0,
    {
        RetryRun {
            max_retries,
            timeout,
            attempts: 0,
            passed: false,
            last_results: Vec::new(),
            last_error: None,
            history: Ghost(Seq::empty()),
        }
    }

    /// Whether another attempt is due.
    pub fn wants_attempt(&self) -> (r: bool)
        ensures
            r == self.attempt_due(),
    {
        !self.passed && self.attempts <= self.max_retries
    }

    /// Takes in what the next attempt came to. (The attempt counter is a `usize`: the
    /// attempt after the `usize::MAX`-th cannot be counted.)
    pub fn record(&mut self, outcome: AttemptOutcome)
        requires
            old(self).wf(),
            old(self).attempt_due(),
            old(self).attempts < usize::MAX,
        ensures
            final(self).wf(),
            final(self).max_retries == old(self).max_retries,
            final(self).timeout == old(self).timeout,
            final(self).attempts == old(self).attempts + 1,
            final(self).passed == attempt_passed(outcome),
            final(self).history@ == old(self).history@.push(outcome),
            match outcome {
                AttemptOutcome::Completed(rs) => final(self).last_results == rs
                    && final(self).last_error is None,
                AttemptOutcome::Failed(e) => final(self).last_results@.len() == 0
                    && final(self).last_error is Some
                    && (error_text(e) matches Some(t) ==> final(self).last_error->0@ == t)
                    && (exists|shown: Seq<char>| final(self).last_error->0@ == message_text(
                    e,
                    shown,
                )),
                AttemptOutcome::TimedOut => final(self).last_results@.len() == 0
                    && final(self).last_error is Some && final(self).last_error->0@
                    == timeout_text(old(self).timeout),
            },
    {
        let ghost taken = outcome;
        proof {
            crate::laws::law_retry_step(self.max_retries as nat, self.history@, outcome);
        }
        self.attempts = self.attempts + 1;
        self.history = Ghost(self.history@.push(taken));
        match outcome {
            AttemptOutcome::Completed(results) => {
                self.passed = all_passed(results.as_slice());
                self.last_results = results;
                self.last_error = None;
            },
            AttemptOutcome::Failed(e) => {
                self.last_error = Some(e.message());
                self.last_results = Vec::new();
            },
            AttemptOutcome::TimedOut => {
                self.last_error = Some(timeout_message(&self.timeout));
                self.last_results = Vec::new();
            },
        }
    }

    /// The report of the test once no attempt is due.
    pub fn report(self, test: &TestCase, duration: Duration) -> (r: TestReport)
        ensures
            r.test_id == test.id,
            r.test_name == test.name,
            r.tags@ == test.tags@,
            r.passed == self.passed,
            r.attempts == self.attempts,
            r.assertion_results == self.last_results,
            r.duration == duration,
            r.error == self.last_error,
    {
        TestReport {
            test_id: test.id.clone(),
            test_name: copy_opt_string(&test.name),
            tags: copy_strings(&test.tags),
            passed: self.passed,
            attempts: self.attempts,
            assertion_results: self.last_results,
            duration,
            error: self.last_error,
        }
    }
}

/// `"Consensus: {passed}/{runs} passed, needed {required}"`.
pub open spec fn consensus_text(passed: nat, runs: nat, required: nat) -> Seq<char> {
    "Consensus: "@ + decimal(passed) + "/"@ + decimal(runs) + " passed, needed "@ + decimal(
        required,
    )
}

/// The runs of a test in consensus mode, as they come in.
pub struct ConsensusRun {
    pub runs: usize,
    pub required: usize,
    /// Runs made so far.
    pub started: usize,
    /// Runs that passed so far.
    pub pass_count: usize,
    /// Assertion results of the last run the agent answered.
    pub last_results: Vec<AssertionResult>,
    /// What the runs made so far came to, in order.
    pub history: Ghost<Seq<AttemptOutcome>>,
}

impl ConsensusRun {
    /// The state every run keeps: the runs and passes are those of the consensus model
    /// over the outcomes taken in.
    pub open spec fn wf(self) -> bool {
        &&& self.started == self.history@.len()
        &&& (self.started as nat, self.pass_count as nat) == consensus_after(
            self.runs as nat,
            self.required as nat,
            self.history@,
        )
        &&& self.wf_counts()
    }

    /// Passes never exceed runs made, nor runs made the runs asked for.
    pub open spec fn wf_counts(self) -> bool {
        self.pass_count <= self.started <= self.runs
    }

    /// Another run is due: runs are left, and the required passes were not reached
    /// after the last run (the first run is always made).
    pub open spec fn run_due(self) -> bool {
        self.started < self.runs && (self.started == 0 || self.pass_count < self.required)
    }

    /// No run made yet.
    pub fn new(runs: usize, required: usize) -> (r: Self)
        ensures
            r.wf(),
            r.runs == runs,
            r.required == required,
            r.started == 0,
            r.pass_count == 0,
            r.last_results@.len() == 0,
            r.history@.len() == 0,
    {
        ConsensusRun {
            runs,
            required,
            started: 0,
            pass_count: 0,
            last_results: Vec::new(),
            history: Ghost(Seq::empty()),
        }
    }

    /// Whether another run is due.
    pub fn wants_run(&self) -> (r: bool)
        ensures
            r == self.run_due(),
    {
        self.started < self.runs && (self.started == 0 || self.pass_count < self.required)
    }

    /// Takes in what the next run came to.
    pub fn record(&mut self, outcome: AttemptOutcome)
        requires
            old(self).wf(),
            old(self).run_due(),
        ensures
            final(self).wf(),
            final(self).runs == old(self).runs,
            final(self).required == old(self).required,
            final(self).started == old(self).started + 1,
            final(self).pass_count == old(self).pass_count + if attempt_passed(outcome) {
                1int
            } else {
                0int
            },
            final(self).last_results == match outcome {
                AttemptOutcome::Completed(rs) => rs,
                _ => old(self).last_results,
            },
            final(self).history@ == old(self).history@.push(outcome),
    {
        let ghost taken = outcome;
        proof {
            crate::laws::law_consensus_step(
                self.runs as nat,
                self.required as nat,
                self.history@,
                outcome,
            );
        }
        self.started = self.started + 1;
        self.history = Ghost(self.history@.push(taken));
        match outcome {
            AttemptOutcome::Completed(results) => {
                if all_passed(results.as_slice()) {
                    self.pass_count = self.pass_count + 1;
                }
                self.last_results = results;
            },
            _ => {},
        }
    }

    /// The report of the test once no run is due.
    pub fn report(self, test: &TestCase, duration: Duration) -> (r: TestReport)
        ensures
            r.test_id == test.id,
            r.test_name == test.name,
            r.tags@ == test.tags@,
            r.passed == (self.pass_count >= self.required),
            r.attempts == self.runs,
            r.assertion_results == self.last_results,
            r.duration == duration,
            r.error matches Some(m) ==> self.pass_count < self.required && m@ == consensus_text(
                self.pass_count as nat,
                self.runs as nat,
                self.required as nat,
            ),
            self.pass_count < self.required ==> r.error is Some,
    {
        let error = if self.pass_count < self.required {
            let mut m = String::from_str("Consensus: ");
            m.append(decimal_string(self.pass_count).as_str());
            m.append("/");
            m.append(decimal_string(self.runs).as_str());
            m.append(" passed, needed ");
            m.append(decimal_string(self.required).as_str());
            Some(m)
        } else {
            None
        };
        TestReport {
            test_id: test.id.clone(),
            test_name: copy_opt_string(&test.name),
            tags: copy_strings(&test.tags),
            passed: self.pass_count >= self.required,
            attempts: self.runs,
            assertion_results: self.last_results,
            duration,
            error,
        }
    }
}


/// What a runner runs of a suite: the tests its filters select, in the suite's order,
/// each run with the suite's defaults.
pub struct SuitePlan {
    pub suite_name: String,
    pub tests: Vec<TestCase>,
    /// Timeout of the tests that set none: the suite's default, else the runner's.
    pub default_timeout: Duration,
    /// Retries every test gets at least.
    pub default_retries: usize,
    /// Configuration of the tests whose own is `null`.
    pub default_config: AgentConfig,
}

/// How one test of a plan is run.
pub struct TestSetup {
    /// Timeout of each run.
    pub timeout: Duration,
    pub mode: RunMode,
}

impl Runner {
    /// The plan of running `suite`: its selected tests with its defaults.
    pub fn plan(&self, suite: TestSuite) -> (r: SuitePlan)
        ensures
            r.suite_name == suite.name,
            r.tests@ == selected_tests(self.config, suite.tests@),
            r.default_timeout == match suite.default_timeout {
                Some(d) => d,
                None => self.config.default_timeout,
            },
            r.default_retries == suite.default_retries,
            r.default_config == suite.default_config,
    {
        let default_timeout = self.suite_timeout(suite.default_timeout);
        let TestSuite { name, tests, default_timeout: _, default_retries, default_config } = suite;
        SuitePlan {
            suite_name: name,
            tests: self.select_tests(tests),
            default_timeout,
            default_retries,
            default_config,
        }
    }
}

impl SuitePlan {
    /// How `test` is run under this plan's defaults.
    pub fn setup(&self, test: &TestCase) -> (r: TestSetup)
        ensures
            r.timeout == timeout_of(*test, self.default_timeout),
            r.mode == mode_of(*test, self.default_retries),
    {
        TestSetup {
            timeout: attempt_timeout(test, self.default_timeout),
            mode: run_mode(test, self.default_retries),
        }
    }

    /// The configuration the agent gets for `test` under this plan.
    pub fn config_for<'a>(&'a self, test: &'a TestCase) -> (r: &'a AgentConfig)
        ensures
            *r == if json_is_null(test.config.data) {
                self.default_config
            } else {
                test.config
            },
    {
        select_config(test, &self.default_config)
    }
}

} // verus!
