pub mod agent;
pub mod assertion;
pub mod clock;
pub mod console;
pub mod error;
pub mod json;
pub mod laws;
pub mod multi_turn;
pub mod report;
pub mod runner;
pub mod test_case;
pub mod text;
pub mod trace;

pub use agent::{AgentConfig, AgentOutput, ToolCall, Turn};
pub use assertion::AssertionResult;
pub use error::SpiceError;
pub use report::{SuiteReport, TestReport};
pub use runner::{Runner, RunnerConfig};
pub use test_case::{TestCase, TestCaseBuilder, TestSuite};

use vstd::prelude::*;
use vstd::string::*;

use crate::json::is_json_null;
use crate::test_case::fresh_case;

verus! {

/// Convenience function to start building a test case.
pub fn test(id: &str, user_message: &str) -> (r: TestCaseBuilder)
    ensures
        fresh_case(r.case, id@, user_message@),
{
    TestCaseBuilder::new(id, user_message)
}

/// Convenience function to create a test suite: the given name and tests, with no
/// default timeout, no default retries and a `null` default configuration.
pub fn suite(name: &str, tests: Vec<TestCase>) -> (r: TestSuite)
    ensures
        r.name@ == name@,
        r.tests == tests,
        r.default_timeout is None,
        r.default_retries == 0,
        is_json_null(r.default_config.data),
{
    let base = TestSuite::default();
    TestSuite { name: String::from_str(name), tests, ..base }
}

} // verus!
