use vstd::prelude::*;
use std::time::Duration;
use vstd::string::*;

use crate::agent::AgentConfig;
use crate::json::is_json_null;

verus! {

/// One test: a message for the agent and how to run it.
#[derive(Debug, Clone)]
pub struct TestCase {
    pub id: String,
    pub name: Option<String>,
    pub tags: Vec<String>,
    pub user_message: String,
    /// Per-test timeout; the suite's or the runner's applies when absent.
    pub timeout: Option<Duration>,
    /// Extra attempts after a failed one.
    pub retries: usize,
    /// Agent configuration; JSON `null` means the suite's default.
    pub config: AgentConfig,
    /// Consensus mode: how many runs, and how many of them must pass.
    pub consensus_runs: Option<usize>,
    pub consensus_required: Option<usize>,
}

/// `c` is a test just begun with the given id and message: no name, tags, timeout,
/// retries or consensus, and a JSON `null` configuration.
pub open spec fn fresh_case(c: TestCase, id: Seq<char>, user_message: Seq<char>) -> bool {
    &&& c.id@ == id
    &&& c.user_message@ == user_message
    &&& c.name is None
    &&& c.tags@.len() == 0
    &&& c.timeout is None
    &&& c.retries == 0
    &&& is_json_null(c.config.data)
    &&& c.consensus_runs is None
    &&& c.consensus_required is None
}

/// Builds a `TestCase` step by step.
#[derive(Debug, Clone)]
pub struct TestCaseBuilder {
    pub case: TestCase,
}

impl TestCaseBuilder {
    /// A test with the given id and message, no name, tags, timeout, retries or
    /// consensus, and a `null` configuration.
    pub fn new(id: &str, user_message: &str) -> (r: Self)
        ensures
            fresh_case(r.case, id@, user_message@),
    {
        TestCaseBuilder {
            case: TestCase {
                id: String::from_str(id),
                name: None,
                tags: Vec::new(),
                user_message: String::from_str(user_message),
                timeout: None,
                retries: 0,
                config: AgentConfig::empty(),
                consensus_runs: None,
                consensus_required: None,
            },
        }
    }

    /// Sets the human-readable name.
    pub fn name(self, name: &str) -> (r: Self)
        ensures
            r.case.name matches Some(n) && n@ == name@,
            r.case == (TestCase { name: r.case.name, ..self.case }),
    {
        let mut case = self.case;
        case.name = Some(String::from_str(name));
        TestCaseBuilder { case }
    }

    /// Adds a tag.
    pub fn tag(self, tag: &str) -> (r: Self)
        ensures
            r.case.tags@.len() == self.case.tags@.len() + 1,
            r.case.tags@.drop_last() == self.case.tags@,
            r.case.tags@.last()@ == tag@,
            r.case == (TestCase { tags: r.case.tags, ..self.case }),
    {
        let mut case = self.case;
        case.tags.push(String::from_str(tag));
        proof {
            assert(case.tags@.drop_last() =~= self.case.tags@);
        }
        TestCaseBuilder { case }
    }

    /// Sets the number of extra attempts.
    pub fn retries(self, retries: usize) -> (r: Self)
        ensures
            r.case == (TestCase { retries, ..self.case }),
    {
        let mut case = self.case;
        case.retries = retries;
        TestCaseBuilder { case }
    }

    /// Sets the timeout of each attempt.
    pub fn timeout(self, timeout: Duration) -> (r: Self)
        ensures
            r.case == (TestCase { timeout: Some(timeout), ..self.case }),
    {
        let mut case = self.case;
        case.timeout = Some(timeout);
        TestCaseBuilder { case }
    }

    /// Sets the agent configuration.
    pub fn config(self, config: AgentConfig) -> (r: Self)
        ensures
            r.case == (TestCase { config, ..self.case }),
    {
        let mut case = self.case;
        case.config = config;
        TestCaseBuilder { case }
    }

    /// Runs the test `runs` times and passes it when `required` runs pass.
    pub fn consensus(self, runs: usize, required: usize) -> (r: Self)
        ensures
            r.case == (TestCase {
                consensus_runs: Some(runs),
                consensus_required: Some(required),
                ..self.case
            }),
    {
        let mut case = self.case;
        case.consensus_runs = Some(runs);
        case.consensus_required = Some(required);
        TestCaseBuilder { case }
    }

    /// The test built so far.
    pub fn build(self) -> (r: TestCase)
        ensures
            r == self.case,
    {
        self.case
    }
}

/// A named collection of tests with defaults for them.
#[derive(Debug, Clone)]
pub struct TestSuite {
    pub name: String,
    pub tests: Vec<TestCase>,
    /// Timeout of the tests that set none; the runner's applies when absent.
    pub default_timeout: Option<Duration>,
    /// Extra attempts that every test gets at least.
    pub default_retries: usize,
    /// Configuration of the tests whose own is `null`.
    pub default_config: AgentConfig,
}

impl Default for TestSuite {
    fn default() -> (r: Self)
        ensures
            r.name@.len() == 0,
            r.tests@.len() == 0,
            r.default_timeout is None,
            r.default_retries == 0,
            is_json_null(r.default_config.data),
    {
        TestSuite {
            name: String::new(),
            tests: Vec::new(),
            default_timeout: None,
            default_retries: 0,
            default_config: AgentConfig::empty(),
        }
    }
}

} // verus!
