use vstd::prelude::*;
use std::time::Duration;

use crate::json::{is_json_null, null_value};
use crate::text::str_eq;

verus! {

/// Configuration passed to the agent under test. Wraps arbitrary JSON.
#[derive(Debug, Clone)]
pub struct AgentConfig {
    pub data: serde_json::Value,
}

impl AgentConfig {
    pub fn new(data: serde_json::Value) -> (r: Self)
        ensures
            r.data == data,
    {
        Self { data }
    }

    /// A configuration whose data is JSON `null`.
    pub fn empty() -> (r: Self)
        ensures
            is_json_null(r.data),
    {
        Self { data: null_value() }
    }
}

impl Default for AgentConfig {
    /// The empty configuration: JSON `null`.
    fn default() -> (r: Self)
        ensures
            is_json_null(r.data),
    {
        AgentConfig::empty()
    }
}

/// A single tool call made by the agent.
#[derive(Debug, Clone)]
pub struct ToolCall {
    pub id: String,
    pub name: String,
    pub arguments: serde_json::Value,
}

/// A single turn in the agent's execution.
#[derive(Debug, Clone)]
pub struct Turn {
    pub index: usize,
    pub output_text: Option<String>,
    pub tool_calls: Vec<ToolCall>,
    pub tool_results: Vec<serde_json::Value>,
    pub stop_reason: Option<String>,
    pub duration: Duration,
}

/// The complete output of an agent run.
#[derive(Debug, Clone)]
pub struct AgentOutput {
    pub final_text: String,
    pub turns: Vec<Turn>,
    pub tools_called: Vec<String>,
    pub duration: Duration,
    pub error: Option<String>,
}

/// All tool calls of `turns`, turn after turn, each turn's calls in order.
pub open spec fn flat_tool_calls(turns: Seq<Turn>) -> Seq<ToolCall>
    decreases turns.len(),
{
    if turns.len() == 0 {
        Seq::empty()
    } else {
        flat_tool_calls(turns.drop_last()) + turns.last().tool_calls@
    }
}

/// The calls of `calls` whose tool is named `name`, in order.
pub open spec fn calls_named(calls: Seq<ToolCall>, name: Seq<char>) -> Seq<ToolCall>
    decreases calls.len(),
{
    if calls.len() == 0 {
        Seq::empty()
    } else {
        let rest = calls_named(calls.drop_last(), name);
        if calls.last().name@ == name {
            rest.push(calls.last())
        } else {
            rest
        }
    }
}

/// The values behind a sequence of references.
pub open spec fn deref_calls(refs: Seq<&ToolCall>) -> Seq<ToolCall> {
    refs.map_values(|c: &ToolCall| *c)
}

impl AgentOutput {
    /// Collect all tool calls across all turns.
    pub fn all_tool_calls(&self) -> (r: Vec<&ToolCall>)
        ensures
            deref_calls(r@) == flat_tool_calls(self.turns@),
    {
        let mut r: Vec<&ToolCall> = Vec::new();
        let n = self.turns.len();
        let mut i: usize = 0;
        while i < n
            invariant
                n == self.turns@.len(),
                i <= n,
                deref_calls(r@) == flat_tool_calls(self.turns@.take(i as int)),
            decreases n - i,
        {
            let turn = &self.turns[i];
            let m = turn.tool_calls.len();
            let mut j: usize = 0;
            while j < m
                invariant
                    n == self.turns@.len(),
                    i < n,
                    turn == self.turns@[i as int],
                    m == turn.tool_calls@.len(),
                    j <= m,
                    deref_calls(r@) == flat_tool_calls(self.turns@.take(i as int))
                        + turn.tool_calls@.take(j as int),
                decreases m - j,
            {
                let ghost before = r@;
                r.push(&turn.tool_calls[j]);
                proof {
                    assert(deref_calls(r@) =~= deref_calls(before).push(turn.tool_calls@[j as int]));
                    assert(turn.tool_calls@.take(j + 1) =~= turn.tool_calls@.take(j as int).push(
                        turn.tool_calls@[j as int],
                    ));
                }
                j = j + 1;
            }
            proof {
                assert(self.turns@.take(i + 1).drop_last() =~= self.turns@.take(i as int));
                assert(turn.tool_calls@.take(m as int) =~= turn.tool_calls@);
            }
            i = i + 1;
        }
        proof {
            assert(self.turns@.take(n as int) =~= self.turns@);
        }
        r
    }

    /// Get tool calls filtered by name.
    pub fn tool_calls_by_name(&self, name: &str) -> (r: Vec<&ToolCall>)
        ensures
            deref_calls(r@) == calls_named(flat_tool_calls(self.turns@), name@),
    {
        let all = self.all_tool_calls();
        let ghost calls = flat_tool_calls(self.turns@);
        let mut r: Vec<&ToolCall> = Vec::new();
        let n = all.len();
        let mut i: usize = 0;
        while i < n
            invariant
                n == all@.len(),
                deref_calls(all@) == calls,
                i <= n,
                deref_calls(r@) == calls_named(calls.take(i as int), name@),
            decreases n - i,
        {
            let c = all[i];
            proof {
                assert(deref_calls(all@)[i as int] == *c);
                assert(calls.take(i + 1).drop_last() =~= calls.take(i as int));
            }
            if str_eq(c.name.as_str(), name) {
                let ghost before = r@;
                r.push(c);
                assert(deref_calls(r@) =~= deref_calls(before).push(*c));
            }
            i = i + 1;
        }
        proof {
            assert(calls.take(n as int) =~= calls);
        }
        r
    }
}

} // verus!
