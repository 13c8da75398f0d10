use vstd::prelude::*;
use std::ops::RangeInclusive;

use crate::agent::{AgentOutput, ToolCall, Turn};
use crate::text::{named_in, names_contain};

verus! {

/// `i` lies in the inclusive range `r`, as `RangeInclusive::contains` decides
/// (an exhausted range no longer holds its end).
pub open spec fn in_range(r: RangeInclusive<usize>, i: usize) -> bool {
    &&& r@.start <= i
    &&& if r@.exhausted {
        i < r@.end
    } else {
        i <= r@.end
    }
}

/// Names of the tools called in `calls`, in order.
pub open spec fn call_names(calls: Seq<ToolCall>) -> Seq<Seq<char>> {
    calls.map_values(|c: ToolCall| c.name@)
}

/// Names of all tools called in the turns of `turns` whose index lies in `r`, in order.
pub open spec fn tool_names_in_range(turns: Seq<Turn>, r: RangeInclusive<usize>) -> Seq<Seq<char>>
    decreases turns.len(),
{
    if turns.len() == 0 {
        Seq::empty()
    } else {
        let rest = tool_names_in_range(turns.drop_last(), r);
        if in_range(r, turns.last().index) {
            rest + call_names(turns.last().tool_calls@)
        } else {
            rest
        }
    }
}

/// The views of a sequence of strings.
pub open spec fn string_views(v: Seq<String>) -> Seq<Seq<char>> {
    v.map_values(|s: String| s@)
}

/// Some tool call of `t` names a tool of `tools`.
pub open spec fn turn_calls_any(t: Turn, tools: Seq<String>) -> bool {
    exists|j: int| 0 <= j < t.tool_calls@.len() && named_in(tools, #[trigger] t.tool_calls@[j].name@)
}

/// The index of the first turn of `turns` that calls a tool of `tools`.
pub open spec fn first_turn_calling(turns: Seq<Turn>, tools: Seq<String>) -> Option<usize>
    decreases turns.len(),
{
    if turns.len() == 0 {
        None
    } else if turn_calls_any(turns[0], tools) {
        Some(turns[0].index)
    } else {
        first_turn_calling(turns.drop_first(), tools)
    }
}

/// Collect all tool names called within the specified turn range.
pub fn tools_in_range(output: &AgentOutput, range: &RangeInclusive<usize>) -> (r: Vec<String>)
    ensures
        string_views(r@) == tool_names_in_range(output.turns@, *range),
{
    let mut r: Vec<String> = Vec::new();
    let n = output.turns.len();
    let mut i: usize = 0;
    while i < n
        invariant
            n == output.turns@.len(),
            i <= n,
            string_views(r@) == tool_names_in_range(output.turns@.take(i as int), *range),
        decreases n - i,
    {
        let turn = &output.turns[i];
        proof {
            assert(output.turns@.take(i + 1).drop_last() =~= output.turns@.take(i as int));
        }
        if range.contains(&turn.index) {
            let m = turn.tool_calls.len();
            let mut j: usize = 0;
            while j < m
                invariant
                    n == output.turns@.len(),
                    i < n,
                    turn == output.turns@[i as int],
                    m == turn.tool_calls@.len(),
                    j <= m,
                    string_views(r@) == tool_names_in_range(output.turns@.take(i as int), *range)
                        + call_names(turn.tool_calls@.take(j as int)),
                decreases m - j,
            {
                let ghost before = r@;
                r.push(turn.tool_calls[j].name.clone());
                proof {
                    assert(string_views(r@) =~= string_views(before).push(
                        turn.tool_calls@[j as int].name@,
                    ));
                    assert(call_names(turn.tool_calls@.take(j + 1)) =~= call_names(
                        turn.tool_calls@.take(j as int),
                    ).push(turn.tool_calls@[j as int].name@));
                }
                j = j + 1;
            }
            proof {
                assert(turn.tool_calls@.take(m as int) =~= turn.tool_calls@);
            }
        }
        i = i + 1;
    }
    proof {
        assert(output.turns@.take(n as int) =~= output.turns@);
    }
    r
}

/// Whether some tool call of `turn` names a tool of `tools`.
fn turn_uses_any(turn: &Turn, tools: &[String]) -> (r: bool)
    ensures
        r == turn_calls_any(*turn, tools@),
{
    let m = turn.tool_calls.len();
    let mut j: usize = 0;
    while j < m
        invariant
            m == turn.tool_calls@.len(),
            j <= m,
            forall|q: int| 0 <= q < j ==> !named_in(tools@, #[trigger] turn.tool_calls@[q].name@),
        decreases m - j,
    {
        if names_contain(tools, &turn.tool_calls[j].name) {
            return true;
        }
        j = j + 1;
    }
    false
}

/// Find the first turn index where any of the specified tools appear.
pub fn first_turn_with_tools(output: &AgentOutput, tools: &[String]) -> (r: Option<usize>)
    ensures
        r == first_turn_calling(output.turns@, tools@),
{
    let n = output.turns.len();
    let mut i: usize = 0;
    assert(output.turns@.skip(0) =~= output.turns@);
    while i < n
        invariant
            n == output.turns@.len(),
            i <= n,
            first_turn_calling(output.turns@, tools@) == first_turn_calling(
                output.turns@.skip(i as int),
                tools@,
            ),
        decreases n - i,
    {
        let turn = &output.turns[i];
        assert(output.turns@.skip(i as int)[0] == output.turns@[i as int]);
        if turn_uses_any(turn, tools) {
            return Some(turn.index);
        }
        assert(output.turns@.skip(i as int).drop_first() =~= output.turns@.skip(i + 1));
        i = i + 1;
    }
    assert(output.turns@.skip(n as int).len() == 0);
    None
}

} // verus!
