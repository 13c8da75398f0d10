use vstd::prelude::*;

use crate::agent::AgentOutput;
use crate::clock::Timestamp;

verus! {

/// A trace record for a single test execution.
#[derive(Debug, Clone)]
pub struct Trace {
    pub test_id: String,
    pub user_message: String,
    pub output: AgentOutput,
    pub timestamp: Timestamp,
}

impl Trace {
    /// A trace of `output`, stamped with `timestamp` (the time the caller read from the
    /// clock).
    pub fn new(test_id: String, user_message: String, output: AgentOutput, timestamp: Timestamp) -> (r:
        Self)
        ensures
            r.test_id == test_id,
            r.user_message == user_message,
            r.output == output,
            r.timestamp == timestamp,
    {
        Self { test_id, user_message, output, timestamp }
    }
}

} // verus!
