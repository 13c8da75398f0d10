use vstd::prelude::*;

use std::ops::RangeInclusive;

use crate::assertion::{all_results_passed, AssertionResult};
use crate::console::{count_where, in_role, is_rbac, rbac_tests, role_of, tallies_roles, RoleTally};
use crate::report::{count_passed, TestReport};
use crate::text::{contains_text, lemma_text_less_asymmetric, named_in, occurs_at, text_less};
use crate::agent::{calls_named, flat_tool_calls, ToolCall, Turn};
use crate::multi_turn::{call_names, first_turn_calling, in_range, tool_names_in_range, turn_calls_any};
use crate::runner::{
    attempt_passed, consensus_after, mode_of, timeout_of, passes_tag_filter, passing_count, retry_after,
    selected, selected_tests, AttemptOutcome, ConsensusRun, RetryRun, RunMode, RunnerConfig,
};
use crate::test_case::{fresh_case, TestCase};

verus! {

/// Retry mode: a test passes exactly when one of its first `max_retries + 1` attempts
/// passes; it then stops at the first passing attempt; a failing test makes every
/// attempt it has outcomes for, up to `max_retries + 1`.
pub proof fn law_retry_verdict(max_retries: nat, outcomes: Seq<AttemptOutcome>)
    ensures
        retry_after(max_retries, outcomes).0 <= max_retries + 1,
        retry_after(max_retries, outcomes).0 <= outcomes.len(),
        retry_after(max_retries, outcomes).1 <==> exists|i: int|
            0 <= i < outcomes.len() && i <= max_retries && attempt_passed(#[trigger] outcomes[i]),
        retry_after(max_retries, outcomes).1 ==> {
            let a = retry_after(max_retries, outcomes).0;
            &&& a >= 1
            &&& attempt_passed(outcomes[a - 1])
            &&& forall|j: int| 0 <= j < a - 1 ==> !attempt_passed(#[trigger] outcomes[j])
        },
        !retry_after(max_retries, outcomes).1 ==> retry_after(max_retries, outcomes).0 == if outcomes.len()
            <= max_retries + 1 {
            outcomes.len()
        } else {
            max_retries + 1
        },
    decreases outcomes.len(),
{
    if outcomes.len() > 0 {
        let prev = outcomes.drop_last();
        law_retry_verdict(max_retries, prev);
        let p = retry_after(max_retries, prev);
        let last = outcomes.len() - 1;
        assert forall|j: int| 0 <= j < prev.len() implies #[trigger] outcomes[j] == prev[j] by {}
        if p.1 {
            let i = choose|i: int| 0 <= i < prev.len() && i <= max_retries && attempt_passed(
                #[trigger] prev[i],
            );
            assert(outcomes[i] == prev[i]);
        } else if p.0 <= max_retries {
            assert(p.0 == prev.len());
            if attempt_passed(outcomes[last]) {
            } else {
                assert forall|i: int|
                    0 <= i < outcomes.len() && i <= max_retries implies !attempt_passed(
                    #[trigger] outcomes[i],
                ) by {
                    if i < last {
                        assert(outcomes[i] == prev[i]);
                    }
                }
            }
        } else {
            assert forall|i: int|
                0 <= i < outcomes.len() && i <= max_retries implies !attempt_passed(
                #[trigger] outcomes[i],
            ) by {
                assert(outcomes[i] == prev[i]);
            }
        }
    }
}

proof fn lemma_passing_count_prefix(outcomes: Seq<AttemptOutcome>, a: int, b: int)
    requires
        0 <= a <= b <= outcomes.len(),
    ensures
        passing_count(outcomes.take(a)) <= passing_count(outcomes.take(b)),
    decreases b - a,
{
    if a < b {
        lemma_passing_count_prefix(outcomes, a, b - 1);
        assert(outcomes.take(b).drop_last() =~= outcomes.take(b - 1));
    }
}

proof fn lemma_consensus_progress(runs: nat, required: nat, outcomes: Seq<AttemptOutcome>)
    ensures
        consensus_after(runs, required, outcomes).0 <= runs,
        consensus_after(runs, required, outcomes).0 <= outcomes.len(),
        consensus_after(runs, required, outcomes).1 == passing_count(
            outcomes.take(consensus_after(runs, required, outcomes).0 as int),
        ),
        consensus_after(runs, required, outcomes).0 < outcomes.len() ==> consensus_after(
            runs,
            required,
            outcomes,
        ).0 == runs || (consensus_after(runs, required, outcomes).0 > 0 && consensus_after(
            runs,
            required,
            outcomes,
        ).1 >= required),
        consensus_after(runs, required, outcomes).0 == outcomes.len() || consensus_after(
            runs,
            required,
            outcomes,
        ).0 == runs || (consensus_after(runs, required, outcomes).0 > 0 && consensus_after(
            runs,
            required,
            outcomes,
        ).1 >= required),
    decreases outcomes.len(),
{
    if outcomes.len() > 0 {
        let prev = outcomes.drop_last();
        lemma_consensus_progress(runs, required, prev);
        let p = consensus_after(runs, required, prev);
        assert(prev.take(p.0 as int) =~= outcomes.take(p.0 as int));
        if p.0 < runs && (p.0 == 0 || p.1 < required) {
            assert(p.0 == prev.len());
            assert(outcomes.take((p.0 + 1) as int).drop_last() =~= outcomes.take(p.0 as int));
            assert(outcomes.take((p.0 + 1) as int) =~= outcomes);
        }
    } else {
        assert(outcomes.take(0) =~= Seq::<AttemptOutcome>::empty());
    }
}

/// Consensus mode: stopping once enough runs passed does not change the verdict. Given
/// the outcomes of all `runs` runs, the test passes (`pass_count >= required`) exactly
/// when at least `required` of those `runs` outcomes passed.
pub proof fn law_consensus_verdict(runs: nat, required: nat, outcomes: Seq<AttemptOutcome>)
    requires
        outcomes.len() == runs,
    ensures
        (consensus_after(runs, required, outcomes).1 >= required) <==> passing_count(outcomes)
            >= required,
        consensus_after(runs, required, outcomes).1 <= passing_count(outcomes),
{
    lemma_consensus_progress(runs, required, outcomes);
    let c = consensus_after(runs, required, outcomes);
    lemma_passing_count_prefix(outcomes, c.0 as int, runs as int);
    assert(outcomes.take(runs as int) =~= outcomes);
    if c.0 == runs {
        assert(outcomes.take(c.0 as int) =~= outcomes);
    }
}


/// One more outcome moves the retry model exactly as `RetryRun::record` moves a run:
/// when an attempt is due, one more attempt, passed as that outcome passed; else nothing.
pub proof fn law_retry_step(max_retries: nat, outcomes: Seq<AttemptOutcome>, o: AttemptOutcome)
    ensures
        retry_after(max_retries, outcomes.push(o)) == {
            let prev = retry_after(max_retries, outcomes);
            if !prev.1 && prev.0 <= max_retries {
                (prev.0 + 1, attempt_passed(o))
            } else {
                prev
            }
        },
{
    assert(outcomes.push(o).drop_last() =~= outcomes);
}

/// One more outcome moves the consensus model exactly as `ConsensusRun::record` moves a
/// run: when a run is due, one more run, and one more pass if it passed; else nothing.
pub proof fn law_consensus_step(runs: nat, required: nat, outcomes: Seq<AttemptOutcome>, o: AttemptOutcome)
    ensures
        consensus_after(runs, required, outcomes.push(o)) == {
            let prev = consensus_after(runs, required, outcomes);
            if prev.0 < runs && (prev.0 == 0 || prev.1 < required) {
                (prev.0 + 1, prev.1 + if attempt_passed(o) {
                    1nat
                } else {
                    0nat
                })
            } else {
                prev
            }
        },
{
    assert(outcomes.push(o).drop_last() =~= outcomes);
}

/// The calls that `tool_calls_by_name` returns are calls of `all_tool_calls`, each named
/// as asked, in their order there, and every call so named is among them.
pub proof fn law_calls_by_name_are_named_calls(calls: Seq<ToolCall>, name: Seq<char>)
    ensures
        calls_named(calls, name).len() <= calls.len(),
        forall|i: int|
            0 <= i < calls_named(calls, name).len() ==> (#[trigger] calls_named(calls, name)[i]).name@
                == name,
        forall|i: int|
            0 <= i < calls_named(calls, name).len() ==> exists|j: int|
                0 <= j < calls.len() && calls[j] == #[trigger] calls_named(calls, name)[i],
        forall|j: int|
            0 <= j < calls.len() && (#[trigger] calls[j]).name@ == name ==> exists|i: int|
                0 <= i < calls_named(calls, name).len() && calls_named(calls, name)[i] == calls[j],
    decreases calls.len(),
{
    if calls.len() > 0 {
        let prev = calls.drop_last();
        law_calls_by_name_are_named_calls(prev, name);
        let r = calls_named(calls, name);
        let rp = calls_named(prev, name);
        assert forall|i: int| 0 <= i < r.len() implies exists|j: int|
            0 <= j < calls.len() && calls[j] == #[trigger] r[i] by {
            if i < rp.len() {
                assert(r[i] == rp[i]);
                let j = choose|j: int| 0 <= j < prev.len() && prev[j] == rp[i];
                assert(calls[j] == prev[j]);
            } else {
                assert(r[i] == calls[calls.len() - 1]);
            }
        }
        assert forall|j: int| 0 <= j < calls.len() && (#[trigger] calls[j]).name@ == name implies exists|i: int|
            0 <= i < r.len() && r[i] == calls[j] by {
            if j < prev.len() {
                assert(calls[j] == prev[j]);
                let i = choose|i: int| 0 <= i < rp.len() && rp[i] == prev[j];
                assert(r[i] == rp[i]);
            } else {
                assert(r[r.len() - 1] == calls[j]);
            }
        }
    }
}

/// A range that holds the index of every turn gives the names of all tool calls:
/// `tools_in_range` is then `all_tool_calls` by name.
pub proof fn law_full_range_gives_all_tools(turns: Seq<Turn>, r: RangeInclusive<usize>)
    requires
        forall|k: int| 0 <= k < turns.len() ==> in_range(r, #[trigger] turns[k].index),
    ensures
        tool_names_in_range(turns, r) == call_names(flat_tool_calls(turns)),
    decreases turns.len(),
{
    if turns.len() > 0 {
        let prev = turns.drop_last();
        assert forall|k: int| 0 <= k < prev.len() implies in_range(r, #[trigger] prev[k].index) by {
            assert(prev[k] == turns[k]);
        }
        law_full_range_gives_all_tools(prev, r);
        assert(in_range(r, turns[turns.len() - 1].index));
        assert(call_names(flat_tool_calls(prev) + turns.last().tool_calls@) =~= call_names(
            flat_tool_calls(prev),
        ) + call_names(turns.last().tool_calls@));
    }
}

proof fn lemma_first_turn_is_a_turn(turns: Seq<Turn>, tools: Seq<String>)
    ensures
        first_turn_calling(turns, tools) matches Some(k) ==> exists|p: int|
            0 <= p < turns.len() && (#[trigger] turns[p]).index == k && turn_calls_any(turns[p], tools),
        first_turn_calling(turns, tools) is None ==> forall|p: int|
            0 <= p < turns.len() ==> !turn_calls_any(#[trigger] turns[p], tools),
    decreases turns.len(),
{
    if turns.len() > 0 && !turn_calls_any(turns[0], tools) {
        let rest = turns.drop_first();
        lemma_first_turn_is_a_turn(rest, tools);
        if let Some(k) = first_turn_calling(rest, tools) {
            let p = choose|p: int| 0 <= p < rest.len() && (#[trigger] rest[p]).index == k
                && turn_calls_any(rest[p], tools);
            assert(turns[p + 1] == rest[p]);
        } else {
            assert forall|p: int| 0 <= p < turns.len() implies !turn_calls_any(#[trigger] turns[p], tools) by {
                if p > 0 {
                    assert(turns[p] == rest[p - 1]);
                }
            }
        }
    } else if turns.len() > 0 {
        assert(turns[0].index == first_turn_calling(turns, tools)->0);
    }
}

proof fn lemma_range_holds_turn_tools(turns: Seq<Turn>, r: RangeInclusive<usize>, p: int, q: int)
    requires
        0 <= p < turns.len(),
        0 <= q < turns[p].tool_calls@.len(),
        in_range(r, turns[p].index),
    ensures
        exists|j: int| 0 <= j < tool_names_in_range(turns, r).len() && tool_names_in_range(turns, r)[j]
            == turns[p].tool_calls@[q].name@,
    decreases turns.len(),
{
    let prev = turns.drop_last();
    let rest = tool_names_in_range(prev, r);
    let all = tool_names_in_range(turns, r);
    if p < prev.len() {
        assert(prev[p] == turns[p]);
        lemma_range_holds_turn_tools(prev, r, p, q);
        let j = choose|j: int| 0 <= j < rest.len() && rest[j] == prev[p].tool_calls@[q].name@;
        if in_range(r, turns.last().index) {
            assert(all == rest + call_names(turns.last().tool_calls@));
            assert(all[j] == rest[j]);
        }
    } else {
        assert(all == rest + call_names(turns.last().tool_calls@));
        assert(all[rest.len() + q] == turns[p].tool_calls@[q].name@);
    }
}

/// The turn that `first_turn_with_tools` names calls one of the tools: `tools_in_range`
/// over just that turn's index names one of them. When it names none, no turn calls any.
pub proof fn law_first_turn_has_tool(turns: Seq<Turn>, tools: Seq<String>, r: RangeInclusive<usize>)
    ensures
        first_turn_calling(turns, tools) matches Some(k) ==> (r@.start == k && r@.end == k
            && !r@.exhausted ==> exists|j: int|
            0 <= j < tool_names_in_range(turns, r).len() && named_in(
                tools,
                #[trigger] tool_names_in_range(turns, r)[j],
            )),
        first_turn_calling(turns, tools) is None ==> forall|p: int, q: int|
            0 <= p < turns.len() && 0 <= q < turns[p].tool_calls@.len() ==> !named_in(
                tools,
                (#[trigger] turns[p].tool_calls@[q]).name@,
            ),
{
    lemma_first_turn_is_a_turn(turns, tools);
    if let Some(k) = first_turn_calling(turns, tools) {
        if r@.start == k && r@.end == k && !r@.exhausted {
            let p = choose|p: int| 0 <= p < turns.len() && (#[trigger] turns[p]).index == k
                && turn_calls_any(turns[p], tools);
            let q = choose|q: int|
                0 <= q < turns[p].tool_calls@.len() && named_in(tools, #[trigger] turns[p].tool_calls@[q].name@);
            lemma_range_holds_turn_tools(turns, r, p, q);
        }
    } else {
        assert forall|p: int, q: int|
            0 <= p < turns.len() && 0 <= q < turns[p].tool_calls@.len() implies !named_in(
            tools,
            (#[trigger] turns[p].tool_calls@[q]).name@,
        ) by {
            assert(!turn_calls_any(turns[p], tools));
        }
    }
}

/// Without a filter the runner runs every test of the suite, in order.
pub proof fn law_no_filter_runs_all(config: RunnerConfig, tests: Seq<TestCase>)
    requires
        config.filter is None,
        config.tag_filter is None,
    ensures
        selected_tests(config, tests) == tests,
    decreases tests.len(),
{
    if tests.len() > 0 {
        law_no_filter_runs_all(config, tests.drop_first());
        assert(seq![tests[0]] + tests.drop_first() =~= tests);
    }
}

/// The runner runs only tests that pass its filters, none twice, keeping their order:
/// what it runs is a subsequence of the suite's tests.
pub proof fn law_runs_only_matching(config: RunnerConfig, tests: Seq<TestCase>)
    ensures
        selected_tests(config, tests).len() <= tests.len(),
        forall|i: int|
            0 <= i < selected_tests(config, tests).len() ==> selected(
                config,
                #[trigger] selected_tests(config, tests)[i],
            ),
        forall|j: int| 0 <= j < tests.len() && selected(config, #[trigger] tests[j]) ==> exists|i: int|
            0 <= i < selected_tests(config, tests).len() && selected_tests(config, tests)[i] == tests[j],
    decreases tests.len(),
{
    if tests.len() > 0 {
        let rest = tests.drop_first();
        law_runs_only_matching(config, rest);
        let sr = selected_tests(config, rest);
        let s = selected_tests(config, tests);
        if selected(config, tests[0]) {
            assert(s == seq![tests[0]] + sr);
            assert forall|i: int| 0 <= i < s.len() implies selected(config, #[trigger] s[i]) by {
                if i > 0 {
                    assert(s[i] == sr[i - 1]);
                }
            }
            assert forall|j: int| 0 <= j < tests.len() && selected(config, #[trigger] tests[j]) implies exists|i: int|
                0 <= i < s.len() && s[i] == tests[j] by {
                if j > 0 {
                    assert(tests[j] == rest[j - 1]);
                    let i = choose|i: int| 0 <= i < sr.len() && sr[i] == rest[j - 1];
                    assert(s[i + 1] == sr[i]);
                } else {
                    assert(s[0] == tests[0]);
                }
            }
        } else {
            assert forall|j: int| 0 <= j < tests.len() && selected(config, #[trigger] tests[j]) implies exists|i: int|
                0 <= i < s.len() && s[i] == tests[j] by {
                assert(j > 0);
                assert(tests[j] == rest[j - 1]);
            }
        }
    }
}


/// Sum of the tests counted per role (all, or only the passed ones).
pub open spec fn role_sum(roles: Seq<RoleTally>, only_passed: bool) -> nat
    decreases roles.len(),
{
    if roles.len() == 0 {
        0
    } else {
        role_sum(roles.drop_last(), only_passed) + if only_passed {
            roles.last().passed as nat
        } else {
            roles.last().total as nat
        }
    }
}

/// Sum over `keys` of the tests of `tests` in each key's role.
pub open spec fn sum_role_counts(keys: Seq<Seq<char>>, tests: Seq<TestReport>, only_passed: bool) -> nat
    decreases keys.len(),
{
    if keys.len() == 0 {
        0
    } else {
        sum_role_counts(keys.drop_last(), tests, only_passed) + count_where(
            tests,
            in_role(keys.last()),
            only_passed,
        )
    }
}

/// Number of keys of `keys` whose role test `t` is counted in.
pub open spec fn role_hits(keys: Seq<Seq<char>>, t: TestReport, only_passed: bool) -> nat
    decreases keys.len(),
{
    if keys.len() == 0 {
        0
    } else {
        role_hits(keys.drop_last(), t, only_passed) + if in_role(keys.last())(t) && (!only_passed
            || t.passed) {
            1nat
        } else {
            0nat
        }
    }
}

proof fn lemma_sum_split(keys: Seq<Seq<char>>, tests: Seq<TestReport>, only_passed: bool)
    requires
        tests.len() > 0,
    ensures
        sum_role_counts(keys, tests, only_passed) == sum_role_counts(keys, tests.drop_last(), only_passed)
            + role_hits(keys, tests.last(), only_passed),
    decreases keys.len(),
{
    if keys.len() > 0 {
        lemma_sum_split(keys.drop_last(), tests, only_passed);
    }
}

proof fn lemma_hits_distinct(keys: Seq<Seq<char>>, t: TestReport, only_passed: bool)
    requires
        forall|i: int, j: int| 0 <= i < j < keys.len() ==> keys[i] != keys[j],
    ensures
        role_hits(keys, t, only_passed) == if is_rbac(t) && keys.contains(role_of(t)) && (!only_passed
            || t.passed) {
            1nat
        } else {
            0nat
        },
    decreases keys.len(),
{
    if keys.len() > 0 {
        let prev = keys.drop_last();
        lemma_hits_distinct(prev, t, only_passed);
        if keys.contains(role_of(t)) {
            let i = choose|i: int| 0 <= i < keys.len() && keys[i] == role_of(t);
            if i < prev.len() {
                assert(prev[i] == keys[i]);
            }
        }
        if prev.contains(role_of(t)) {
            let i = choose|i: int| 0 <= i < prev.len() && prev[i] == role_of(t);
            assert(keys[i] == prev[i]);
        }
        if keys.last() == role_of(t) {
            assert(keys[keys.len() - 1] == role_of(t));
            if prev.contains(role_of(t)) {
                let i = choose|i: int| 0 <= i < prev.len() && prev[i] == role_of(t);
                assert(keys[i] == keys[keys.len() - 1]);
            }
        }
    }
}

proof fn lemma_sum_is_rbac_count(keys: Seq<Seq<char>>, tests: Seq<TestReport>, only_passed: bool)
    requires
        forall|i: int, j: int| 0 <= i < j < keys.len() ==> keys[i] != keys[j],
        forall|k: int| 0 <= k < tests.len() && is_rbac(#[trigger] tests[k]) ==> keys.contains(
            role_of(tests[k]),
        ),
    ensures
        sum_role_counts(keys, tests, only_passed) == count_where(tests, rbac_tests(), only_passed),
    decreases tests.len(),
{
    if tests.len() == 0 {
        lemma_sum_empty(keys, tests, only_passed);
    } else {
        let prev = tests.drop_last();
        assert forall|k: int| 0 <= k < prev.len() && is_rbac(#[trigger] prev[k]) implies keys.contains(
            role_of(prev[k]),
        ) by {
            assert(prev[k] == tests[k]);
        }
        lemma_sum_is_rbac_count(keys, prev, only_passed);
        lemma_sum_split(keys, tests, only_passed);
        lemma_hits_distinct(keys, tests.last(), only_passed);
        if is_rbac(tests.last()) {
            assert(tests[tests.len() - 1] == tests.last());
        }
    }
}

proof fn lemma_sum_empty(keys: Seq<Seq<char>>, tests: Seq<TestReport>, only_passed: bool)
    requires
        tests.len() == 0,
    ensures
        sum_role_counts(keys, tests, only_passed) == 0,
    decreases keys.len(),
{
    if keys.len() > 0 {
        lemma_sum_empty(keys.drop_last(), tests, only_passed);
    }
}

/// The roles of a table, in order.
pub open spec fn role_keys(roles: Seq<RoleTally>) -> Seq<Seq<char>> {
    roles.map_values(|r: RoleTally| r.role@)
}

proof fn lemma_role_sum_is_sum_of_counts(roles: Seq<RoleTally>, tests: Seq<TestReport>)
    requires
        forall|i: int|
            0 <= i < roles.len() ==> (#[trigger] roles[i]).total == count_where(
                tests,
                in_role(roles[i].role@),
                false,
            ),
        forall|i: int|
            0 <= i < roles.len() ==> (#[trigger] roles[i]).passed == count_where(
                tests,
                in_role(roles[i].role@),
                true,
            ),
    ensures
        role_sum(roles, false) == sum_role_counts(role_keys(roles), tests, false),
        role_sum(roles, true) == sum_role_counts(role_keys(roles), tests, true),
    decreases roles.len(),
{
    if roles.len() > 0 {
        let prev = roles.drop_last();
        assert forall|i: int| 0 <= i < prev.len() implies (#[trigger] prev[i]).total == count_where(
            tests,
            in_role(prev[i].role@),
            false,
        ) && prev[i].passed == count_where(tests, in_role(prev[i].role@), true) by {
            assert(prev[i] == roles[i]);
        }
        lemma_role_sum_is_sum_of_counts(prev, tests);
        assert(role_keys(roles).drop_last() =~= role_keys(prev));
        let last = roles.len() - 1;
        assert(roles[last] == roles.last());
        assert(role_keys(roles).last() == roles[last].role@);
    }
}

/// The console's RBAC summary adds up: the per-role totals sum to the number of `rbac`
/// tests, and the per-role passes to the number of those that passed.
pub proof fn law_role_tallies_add_up(roles: Seq<RoleTally>, tests: Seq<TestReport>)
    requires
        tallies_roles(roles, tests),
    ensures
        role_sum(roles, false) == count_where(tests, rbac_tests(), false),
        role_sum(roles, true) == count_where(tests, rbac_tests(), true),
{
    let keys = role_keys(roles);
    assert forall|i: int, j: int| 0 <= i < j < keys.len() implies keys[i] != keys[j] by {
        assert(text_less(roles[i].role@, roles[j].role@));
        lemma_text_less_asymmetric(roles[i].role@, roles[j].role@);
    }
    assert forall|k: int| 0 <= k < tests.len() && is_rbac(#[trigger] tests[k]) implies keys.contains(
        role_of(tests[k]),
    ) by {
        let i = choose|i: int| 0 <= i < roles.len() && roles[i].role@ == role_of(tests[k]);
        assert(keys[i] == role_of(tests[k]));
    }
    assert forall|i: int| 0 <= i < roles.len() implies (#[trigger] roles[i]).total == count_where(
        tests,
        in_role(roles[i].role@),
        false,
    ) && roles[i].passed == count_where(tests, in_role(roles[i].role@), true) by {
        assert(roles[i].total == count_where(tests, in_role(roles[i].role@), false));
    }
    lemma_role_sum_is_sum_of_counts(roles, tests);
    lemma_sum_is_rbac_count(keys, tests, false);
    lemma_sum_is_rbac_count(keys, tests, true);
}


/// `test(id, message)` and `TestCaseBuilder::new(id, message)` both begin a test that
/// `fresh_case` describes, and that description fixes the test: any two such tests
/// agree in every field (the strings as text).
pub proof fn law_fresh_cases_agree(a: TestCase, b: TestCase, id: Seq<char>, user_message: Seq<char>)
    requires
        fresh_case(a, id, user_message),
        fresh_case(b, id, user_message),
    ensures
        a.id@ == b.id@,
        a.user_message@ == b.user_message@,
        a.name == b.name,
        a.tags@ == b.tags@,
        a.timeout == b.timeout,
        a.retries == b.retries,
        a.config == b.config,
        a.consensus_runs == b.consensus_runs,
        a.consensus_required == b.consensus_required,
{
    assert(a.tags@ =~= b.tags@);
    assert(crate::json::json_is_null(b.config.data));
}


/// Some call of `calls` names one of `tools`.
pub open spec fn some_call_named_in(calls: Seq<ToolCall>, tools: Seq<String>) -> bool {
    exists|i: int| 0 <= i < calls.len() && named_in(tools, #[trigger] calls[i].name@)
}

/// `c` is one of the calls of some turn of `turns`.
pub open spec fn call_of_some_turn(turns: Seq<Turn>, c: ToolCall) -> bool {
    exists|p: int, q: int|
        0 <= p < turns.len() && 0 <= q < turns[p].tool_calls@.len() && #[trigger] turns[p].tool_calls@[q]
            == c
}

/// `c` is one of the calls of `calls`.
pub open spec fn call_among(calls: Seq<ToolCall>, c: ToolCall) -> bool {
    exists|i: int| 0 <= i < calls.len() && #[trigger] calls[i] == c
}

proof fn lemma_flat_calls_members(turns: Seq<Turn>)
    ensures
        forall|i: int|
            0 <= i < flat_tool_calls(turns).len() ==> call_of_some_turn(
                turns,
                #[trigger] flat_tool_calls(turns)[i],
            ),
        forall|p: int, q: int|
            0 <= p < turns.len() && 0 <= q < turns[p].tool_calls@.len() ==> call_among(
                flat_tool_calls(turns),
                #[trigger] turns[p].tool_calls@[q],
            ),
    decreases turns.len(),
{
    if turns.len() > 0 {
        let prev = turns.drop_last();
        lemma_flat_calls_members(prev);
        let fp = flat_tool_calls(prev);
        let f = flat_tool_calls(turns);
        let last = turns.len() - 1;
        assert(f == fp + turns[last].tool_calls@);
        assert forall|i: int| 0 <= i < f.len() implies call_of_some_turn(turns, #[trigger] f[i]) by {
            if i < fp.len() {
                assert(call_of_some_turn(prev, fp[i]));
                let (p, q) = choose|p: int, q: int|
                    0 <= p < prev.len() && 0 <= q < prev[p].tool_calls@.len()
                        && #[trigger] prev[p].tool_calls@[q] == fp[i];
                assert(prev[p] == turns[p]);
                assert(turns[p].tool_calls@[q] == f[i]);
            } else {
                assert(turns[last].tool_calls@[i - fp.len()] == f[i]);
            }
        }
        assert forall|p: int, q: int|
            0 <= p < turns.len() && 0 <= q < turns[p].tool_calls@.len() implies call_among(
            f,
            #[trigger] turns[p].tool_calls@[q],
        ) by {
            if p < last {
                assert(prev[p] == turns[p]);
                assert(call_among(fp, prev[p].tool_calls@[q]));
                let i = choose|i: int| 0 <= i < fp.len() && #[trigger] fp[i] == prev[p].tool_calls@[q];
                assert(f[i] == fp[i]);
            } else {
                assert(f[fp.len() + q] == turns[p].tool_calls@[q]);
            }
        }
    }
}

/// `first_turn_with_tools` finds a turn exactly when some call of `all_tool_calls`
/// names one of the tools.
pub proof fn law_first_turn_iff_some_call(turns: Seq<Turn>, tools: Seq<String>)
    ensures
        first_turn_calling(turns, tools) is Some <==> some_call_named_in(flat_tool_calls(turns), tools),
{
    lemma_first_turn_is_a_turn(turns, tools);
    lemma_flat_calls_members(turns);
    let f = flat_tool_calls(turns);
    if first_turn_calling(turns, tools) is Some {
        let k = first_turn_calling(turns, tools)->0;
        let p = choose|p: int| 0 <= p < turns.len() && (#[trigger] turns[p]).index == k
            && turn_calls_any(turns[p], tools);
        let q = choose|q: int|
            0 <= q < turns[p].tool_calls@.len() && named_in(tools, #[trigger] turns[p].tool_calls@[q].name@);
        assert(call_among(f, turns[p].tool_calls@[q]));
        let i = choose|i: int| 0 <= i < f.len() && #[trigger] f[i] == turns[p].tool_calls@[q];
        assert(named_in(tools, f[i].name@));
    }
    if some_call_named_in(f, tools) {
        let i = choose|i: int| 0 <= i < f.len() && named_in(tools, #[trigger] f[i].name@);
        assert(call_of_some_turn(turns, f[i]));
        let (p, q) = choose|p: int, q: int|
            0 <= p < turns.len() && 0 <= q < turns[p].tool_calls@.len()
                && #[trigger] turns[p].tool_calls@[q] == f[i];
        assert(named_in(tools, turns[p].tool_calls@[q].name@));
        assert(turn_calls_any(turns[p], tools));
    }
}

/// With no tools to look for, `first_turn_with_tools` finds no turn.
pub proof fn law_first_turn_no_tools(turns: Seq<Turn>, tools: Seq<String>)
    requires
        tools.len() == 0,
    ensures
        first_turn_calling(turns, tools) is None,
{
    lemma_first_turn_is_a_turn(turns, tools);
    if first_turn_calling(turns, tools) is Some {
        let k = first_turn_calling(turns, tools)->0;
        let p = choose|p: int| 0 <= p < turns.len() && (#[trigger] turns[p]).index == k
            && turn_calls_any(turns[p], tools);
        let q = choose|q: int|
            0 <= q < turns[p].tool_calls@.len() && named_in(tools, #[trigger] turns[p].tool_calls@[q].name@);
    }
}

/// Looking for more tools never loses a turn: when every tool of `tools` is also in
/// `more`, a turn found for `tools` means one is found for `more`.
pub proof fn law_first_turn_monotone(turns: Seq<Turn>, tools: Seq<String>, more: Seq<String>)
    requires
        forall|k: int| 0 <= k < tools.len() ==> named_in(more, #[trigger] tools[k]@),
    ensures
        first_turn_calling(turns, tools) is Some ==> first_turn_calling(turns, more) is Some,
{
    lemma_first_turn_is_a_turn(turns, tools);
    lemma_first_turn_is_a_turn(turns, more);
    if first_turn_calling(turns, tools) is Some {
        let k = first_turn_calling(turns, tools)->0;
        let p = choose|p: int| 0 <= p < turns.len() && (#[trigger] turns[p]).index == k
            && turn_calls_any(turns[p], tools);
        let q = choose|q: int|
            0 <= q < turns[p].tool_calls@.len() && named_in(tools, #[trigger] turns[p].tool_calls@[q].name@);
        let m = choose|m: int| 0 <= m < tools.len() && tools[m]@ == turns[p].tool_calls@[q].name@;
        assert(named_in(more, tools[m]@));
        assert(named_in(more, turns[p].tool_calls@[q].name@));
        assert(turn_calls_any(turns[p], more));
    }
}

/// `f` places the items of `a` in order among those of `b`.
pub open spec fn embeds(a: Seq<Seq<char>>, b: Seq<Seq<char>>, f: spec_fn(int) -> int) -> bool {
    &&& forall|i: int| 0 <= i < a.len() ==> 0 <= #[trigger] f(i) < b.len() && a[i] == b[f(i)]
    &&& forall|i: int, j: int| 0 <= i < j < a.len() ==> #[trigger] f(i) < #[trigger] f(j)
}

/// `a` is `b` with some items left out.
pub open spec fn is_subsequence(a: Seq<Seq<char>>, b: Seq<Seq<char>>) -> bool {
    exists|f: spec_fn(int) -> int| embeds(a, b, f)
}

/// A range that holds no index (it ends before it starts) gives no tool names.
pub proof fn law_empty_range_gives_nothing(turns: Seq<Turn>, r: RangeInclusive<usize>)
    requires
        r@.end < r@.start,
    ensures
        tool_names_in_range(turns, r).len() == 0,
    decreases turns.len(),
{
    if turns.len() > 0 {
        law_empty_range_gives_nothing(turns.drop_last(), r);
        assert(!in_range(r, turns.last().index));
    }
}

/// A range within another gives a subsequence of the other's tool names.
pub proof fn law_sub_range_gives_subsequence(turns: Seq<Turn>, r1: RangeInclusive<usize>, r2: RangeInclusive<usize>)
    requires
        forall|i: usize| in_range(r1, i) ==> #[trigger] in_range(r2, i),
    ensures
        is_subsequence(tool_names_in_range(turns, r1), tool_names_in_range(turns, r2)),
    decreases turns.len(),
{
    if turns.len() == 0 {
        let f = |i: int| i;
        assert(embeds(tool_names_in_range(turns, r1), tool_names_in_range(turns, r2), f));
    } else {
        let prev = turns.drop_last();
        law_sub_range_gives_subsequence(prev, r1, r2);
        let a = tool_names_in_range(prev, r1);
        let b = tool_names_in_range(prev, r2);
        let f = choose|f: spec_fn(int) -> int| embeds(a, b, f);
        let c = call_names(turns.last().tool_calls@);
        let idx = turns.last().index;
        if in_range(r1, idx) {
            assert(in_range(r2, idx));
            let g = |i: int| if i < a.len() { f(i) } else { i - a.len() + b.len() };
            assert(embeds(a + c, b + c, g)) by {
                assert forall|i: int| 0 <= i < (a + c).len() implies 0 <= #[trigger] g(i) < (b + c).len()
                    && (a + c)[i] == (b + c)[g(i)] by {
                    if i < a.len() {
                        assert(0 <= f(i) < b.len() && a[i] == b[f(i)]);
                    }
                }
                assert forall|i: int, j: int| 0 <= i < j < (a + c).len() implies #[trigger] g(i) < #[trigger] g(j) by {
                    if j < a.len() {
                        assert(f(i) < f(j));
                    } else if i < a.len() {
                        assert(0 <= f(i) < b.len());
                    }
                }
            }
        } else if in_range(r2, idx) {
            assert(embeds(a, b + c, f)) by {
                assert forall|i: int| 0 <= i < a.len() implies 0 <= #[trigger] f(i) < (b + c).len()
                    && a[i] == (b + c)[f(i)] by {
                    assert(0 <= f(i) < b.len() && a[i] == b[f(i)]);
                }
            }
        }
    }
}


/// A retried test's run as the code keeps it: it passed exactly when one of its first
/// `max_retries + 1` attempts passed; a pass is its last attempt, after none passed;
/// and once no attempt is due, a failed test has used every attempt.
pub proof fn law_retry_run_verdict(run: RetryRun)
    requires
        run.wf(),
    ensures
        run.passed <==> exists|i: int|
            0 <= i < run.history@.len() && i <= run.max_retries && attempt_passed(
                #[trigger] run.history@[i],
            ),
        run.passed ==> attempt_passed(run.history@[run.attempts - 1]) && forall|j: int|
            0 <= j < run.attempts - 1 ==> !attempt_passed(#[trigger] run.history@[j]),
        !run.passed && !run.attempt_due() ==> run.attempts == run.max_retries + 1,
{
    law_retry_verdict(run.max_retries as nat, run.history@);
}

proof fn lemma_consensus_settled(runs: nat, required: nat, done: Seq<AttemptOutcome>, rest: Seq<AttemptOutcome>)
    requires
        !({
            let c = consensus_after(runs, required, done);
            c.0 < runs && (c.0 == 0 || c.1 < required)
        }),
    ensures
        consensus_after(runs, required, done + rest) == consensus_after(runs, required, done),
    decreases rest.len(),
{
    if rest.len() > 0 {
        lemma_consensus_settled(runs, required, done, rest.drop_last());
        assert((done + rest).drop_last() =~= done + rest.drop_last());
    } else {
        assert(done + rest =~= done);
    }
}

/// A consensus run as the code keeps it: its passes are the passing outcomes taken
/// in; and once no run is due, the verdict (`pass_count >= required`) is what all
/// `runs` outcomes would give, whatever the runs it skipped would have come to.
pub proof fn law_consensus_run_verdict(run: ConsensusRun, skipped: Seq<AttemptOutcome>)
    requires
        run.wf(),
        !run.run_due(),
        run.history@.len() + skipped.len() == run.runs,
    ensures
        run.pass_count == passing_count(run.history@),
        (run.pass_count >= run.required) <==> passing_count(run.history@ + skipped) >= run.required,
{
    let h = run.history@;
    lemma_consensus_progress(run.runs as nat, run.required as nat, h);
    assert(h.take(h.len() as int) =~= h);
    lemma_consensus_settled(run.runs as nat, run.required as nat, h, skipped);
    law_consensus_verdict(run.runs as nat, run.required as nat, h + skipped);
}


/// An attempt's assertions pass exactly when every one of them passed: one failed
/// result, wherever it stands, fails the attempt; no results at all pass it.
pub proof fn law_attempt_passes_iff_every_assertion_passes(results: Seq<AssertionResult>)
    ensures
        all_results_passed(results) <==> forall|i: int|
            0 <= i < results.len() ==> (#[trigger] results[i]).passed,
        forall|i: int| 0 <= i < results.len() && !(#[trigger] results[i]).passed ==> !all_results_passed(results),
        results.len() == 0 ==> all_results_passed(results),
{
}

/// The agent's run passes an attempt exactly when it answered and every assertion on
/// its answer passed; an error or a timeout never passes.
pub proof fn law_attempt_outcome_verdict(o: AttemptOutcome)
    ensures
        attempt_passed(o) <==> (o matches AttemptOutcome::Completed(rs) && forall|i: int|
            0 <= i < rs@.len() ==> (#[trigger] rs@[i]).passed),
{
}

/// Adding an assertion result to an attempt: a passing one keeps its verdict, a failing
/// one fails it.
pub proof fn law_attempt_verdict_push(results: Seq<AssertionResult>, a: AssertionResult)
    ensures
        all_results_passed(results.push(a)) == (all_results_passed(results) && a.passed),
{
    if all_results_passed(results) && a.passed {
        assert forall|i: int| 0 <= i < results.push(a).len() implies (#[trigger] results.push(a)[i]).passed by {
            if i < results.len() {
                assert(results.push(a)[i] == results[i]);
            }
        }
    }
    if all_results_passed(results.push(a)) {
        assert(results.push(a)[results.len() as int] == a);
        assert forall|i: int| 0 <= i < results.len() implies (#[trigger] results[i]).passed by {
            assert(results.push(a)[i] == results[i]);
        }
    }
}

/// A report is an `rbac` report exactly when one of its tags, at any position, is
/// `rbac`.
pub proof fn law_rbac_tag_anywhere(t: TestReport)
    ensures
        is_rbac(t) <==> exists|i: int| 0 <= i < t.tags@.len() && (#[trigger] t.tags@[i])@ == "rbac"@,
        forall|i: int| 0 <= i < t.tags@.len() && (#[trigger] t.tags@[i])@ == "rbac"@ ==> is_rbac(t),
{
}

/// The console shows an RBAC summary exactly when some report has a tag `rbac`, at any
/// position among its tags.
pub proof fn law_rbac_summary_present(tests: Seq<TestReport>)
    ensures
        count_where(tests, rbac_tests(), false) > 0 <==> exists|k: int, i: int|
            0 <= k < tests.len() && 0 <= i < tests[k].tags@.len() && (#[trigger] tests[k].tags@[i])@
                == "rbac"@,
    decreases tests.len(),
{
    if tests.len() > 0 {
        let prev = tests.drop_last();
        law_rbac_summary_present(prev);
        let last = tests.len() - 1;
        assert(tests[last] == tests.last());
        if exists|k: int, i: int|
            0 <= k < prev.len() && 0 <= i < prev[k].tags@.len() && (#[trigger] prev[k].tags@[i])@
                == "rbac"@ {
            let (k, i) = choose|k: int, i: int|
                0 <= k < prev.len() && 0 <= i < prev[k].tags@.len() && (#[trigger] prev[k].tags@[i])@
                    == "rbac"@;
            assert(tests[k] == prev[k]);
            assert(tests[k].tags@[i]@ == "rbac"@);
        }
        if exists|k: int, i: int|
            0 <= k < tests.len() && 0 <= i < tests[k].tags@.len() && (#[trigger] tests[k].tags@[i])@
                == "rbac"@ {
            let (k, i) = choose|k: int, i: int|
                0 <= k < tests.len() && 0 <= i < tests[k].tags@.len() && (#[trigger] tests[k].tags@[i])@
                    == "rbac"@;
            if k < last {
                assert(prev[k] == tests[k]);
                assert(prev[k].tags@[i]@ == "rbac"@);
            } else {
                assert(is_rbac(tests.last()));
            }
        }
    }
}

/// The suite's pass count is the number of reports that passed, whatever else they hold
/// (attempts, results, error): it counts exactly the reports whose `passed` is set.
pub proof fn law_pass_count_counts_passed_reports(tests: Seq<TestReport>)
    ensures
        count_passed(tests) == tests.filter(|t: TestReport| t.passed).len(),
        count_passed(tests) <= tests.len(),
        count_passed(tests) == tests.len() <==> forall|i: int| 0 <= i < tests.len() ==> (#[trigger] tests[i]).passed,
        count_passed(tests) == 0 <==> forall|i: int| 0 <= i < tests.len() ==> !(#[trigger] tests[i]).passed,
    decreases tests.len(),
{
    reveal(Seq::filter);
    if tests.len() > 0 {
        let prev = tests.drop_last();
        law_pass_count_counts_passed_reports(prev);
        let last = tests.len() - 1;
        assert(tests[last] == tests.last());
        assert forall|i: int| 0 <= i < prev.len() implies prev[i] == tests[i] by {}
        if forall|i: int| 0 <= i < tests.len() ==> (#[trigger] tests[i]).passed {
            assert forall|i: int| 0 <= i < prev.len() implies (#[trigger] prev[i]).passed by {
                assert(tests[i].passed);
            }
        }
        if forall|i: int| 0 <= i < tests.len() ==> !(#[trigger] tests[i]).passed {
            assert forall|i: int| 0 <= i < prev.len() implies !(#[trigger] prev[i]).passed by {
                assert(!tests[i].passed);
            }
        }
        if count_passed(tests) == tests.len() {
            assert forall|i: int| 0 <= i < tests.len() implies (#[trigger] tests[i]).passed by {
                if i < last {
                    assert(prev[i].passed);
                }
            }
        }
        if count_passed(tests) == 0 {
            assert forall|i: int| 0 <= i < tests.len() implies !(#[trigger] tests[i]).passed by {
                if i < last {
                    assert(!prev[i].passed);
                }
            }
        }
    }
}

/// One more report adds one to the pass count when it passed, whatever its attempts,
/// and nothing when it failed.
pub proof fn law_pass_count_push(tests: Seq<TestReport>, t: TestReport)
    ensures
        count_passed(tests.push(t)) == count_passed(tests) + if t.passed {
            1int
        } else {
            0int
        },
{
    assert(tests.push(t).drop_last() =~= tests);
}

/// With a tag filter and no text filter, a test runs exactly when one of its tags, at
/// any position, is among the filter's tags.
pub proof fn law_tag_filter_any_tag(config: RunnerConfig, test: TestCase)
    requires
        config.filter is None,
        config.tag_filter is Some,
    ensures
        selected(config, test) <==> exists|i: int|
            0 <= i < test.tags@.len() && named_in(config.tag_filter->0@, (#[trigger] test.tags@[i])@),
{
}

/// Adding a tag to a test never stops it from running, under any filters.
pub proof fn law_more_tags_keep_selection(config: RunnerConfig, test: TestCase, more: TestCase, extra: String)
    requires
        more == (TestCase { tags: more.tags, ..test }),
        more.tags@ == test.tags@.push(extra),
    ensures
        selected(config, test) ==> selected(config, more),
{
    if selected(config, test) && config.tag_filter is Some {
        let tags = config.tag_filter->0;
        let i = choose|i: int| 0 <= i < test.tags@.len() && named_in(tags@, #[trigger] test.tags@[i]@);
        assert(more.tags@[i] == test.tags@[i]);
    }
}

/// Outside consensus mode a test gets as many retries as the larger of its own and
/// the suite's default; in consensus mode, the runs and passes it asks for.
pub proof fn law_retries_are_the_larger(test: TestCase, default_retries: usize)
    ensures
        (test.consensus_runs is None || test.consensus_required is None) ==> (mode_of(test, default_retries) matches RunMode::Retry { max_retries }
            && max_retries >= test.retries && max_retries >= default_retries && (max_retries
            == test.retries || max_retries == default_retries)),
        (test.consensus_runs is Some && test.consensus_required is Some) ==> mode_of(
            test,
            default_retries,
        ) == (RunMode::Consensus {
            runs: test.consensus_runs->0,
            required: test.consensus_required->0,
        }),
{
}


/// With a text filter and no tag filter, a test runs exactly when the filter text occurs
/// in its id or in its name; in particular a test whose id is the filter text runs.
pub proof fn law_text_filter_id_or_name(config: RunnerConfig, test: TestCase)
    requires
        config.filter is Some,
        config.tag_filter is None,
    ensures
        selected(config, test) <==> (contains_text(test.id@, config.filter->0@) || (test.name is Some
            && contains_text(test.name->0@, config.filter->0@))),
        test.id@ == config.filter->0@ ==> selected(config, test),
{
    if test.id@ == config.filter->0@ {
        assert(test.id@.subrange(0, test.id@.len() as int) =~= test.id@);
        assert(occurs_at(test.id@, config.filter->0@, 0));
    }
}

/// A test's own timeout, when it sets one, is the timeout of its runs; else the
/// default given.
pub proof fn law_own_timeout_wins(test: TestCase, default_timeout: std::time::Duration)
    ensures
        test.timeout is Some ==> timeout_of(test, default_timeout) == test.timeout->0,
        test.timeout is None ==> timeout_of(test, default_timeout) == default_timeout,
{
}

} // verus!
