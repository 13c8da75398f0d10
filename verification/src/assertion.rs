use vstd::prelude::*;

verus! {

/// The outcome of checking one assertion against an agent's output.
#[derive(Debug, Clone)]
pub struct AssertionResult {
    /// What the assertion checks.
    pub description: String,
    pub passed: bool,
    /// Why it failed, where the check says more than its description.
    pub message: Option<String>,
    /// Whether the assertion guards a security property.
    pub is_security: bool,
}

/// Every result of `results` passed.
pub open spec fn all_results_passed(results: Seq<AssertionResult>) -> bool {
    forall|i: int| 0 <= i < results.len() ==> #[trigger] results[i].passed
}

/// Whether every result passed (`results.iter().all(|r| r.passed)`).
pub fn all_passed(results: &[AssertionResult]) -> (r: bool)
    ensures
        r == all_results_passed(results@),
{
    let n = results.len();
    let mut i: usize = 0;
    while i < n
        invariant
            n == results@.len(),
            i <= n,
            forall|k: int| 0 <= k < i ==> #[trigger] results@[k].passed,
        decreases n - i,
    {
        if !results[i].passed {
            return false;
        }
        i = i + 1;
    }
    true
}

} // verus!
