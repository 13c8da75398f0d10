use vstd::prelude::*;

use crate::assertion::AssertionResult;
use crate::report::{SuiteReport, TestReport};
use crate::text::{
    first_piece, lemma_text_less_asymmetric, lemma_text_less_transitive, split_first, str_eq,
    text_less, text_order, TextOrder,
};

verus! {

/// One failed assertion as the console shows it.
pub struct FailureLine {
    /// Marked as a security failure.
    pub is_security: bool,
    /// The failure's message, or the assertion's description when it has none.
    pub text: String,
}

/// One test as the console shows it.
pub struct TestLine {
    /// The test's name, or its id when it has none.
    pub display_name: String,
    pub passed: bool,
    /// For a failed test, its failed assertions in order; empty for a passed one.
    pub failures: Vec<FailureLine>,
    /// For a failed test, its error; `None` for a passed one.
    pub error: Option<String>,
}

/// How the tests of one role fared.
pub struct RoleTally {
    pub role: String,
    pub total: usize,
    pub passed: usize,
}

/// How the tests tagged `rbac` fared, by role and in all.
///
/// The roles are kept as a list ordered by role, with no role twice (`tallies_roles`),
/// rather than as a `BTreeMap<String, _>`: vstd's specification of `BTreeMap` serves
/// keys whose order it knows (integers), and it proves nothing of a map keyed by
/// `String`, so the table is a `Vec` whose order and uniqueness are proved here. It
/// lists the roles as a `BTreeMap` would walk them: by `String` order, which is code
/// point order.
pub struct RbacSummary {
    /// One entry per role, ordered by role as text.
    pub roles: Vec<RoleTally>,
    pub passed: usize,
    pub total: usize,
}

/// Passed and total counts of a group of tests.
pub struct Tally {
    pub passed: usize,
    pub total: usize,
}

/// Everything the console report of a suite shows.
pub struct ConsoleSummary {
    pub suite_name: String,
    pub total: usize,
    pub tests: Vec<TestLine>,
    /// Present when some test is tagged `rbac`.
    pub rbac: Option<RbacSummary>,
    /// Present when some test has a security assertion.
    pub security: Option<Tally>,
    pub passed: usize,
    pub failed: usize,
}

/// The name under which the console shows a test.
pub open spec fn display_name(t: TestReport) -> Seq<char> {
    match t.test_name {
        Some(n) => n@,
        None => t.test_id@,
    }
}

/// The text the console shows for a failed assertion.
pub open spec fn failure_text(a: AssertionResult) -> Seq<char> {
    match a.message {
        Some(m) => m@,
        None => a.description@,
    }
}

/// The failed assertions of `results`, in order, as the console shows them.
pub open spec fn failure_lines(results: Seq<AssertionResult>) -> Seq<(bool, Seq<char>)>
    decreases results.len(),
{
    if results.len() == 0 {
        Seq::empty()
    } else {
        let rest = failure_lines(results.drop_last());
        if results.last().passed {
            rest
        } else {
            rest.push((results.last().is_security, failure_text(results.last())))
        }
    }
}

/// The view of a list of failure lines.
pub open spec fn failure_views(lines: Seq<FailureLine>) -> Seq<(bool, Seq<char>)> {
    lines.map_values(|l: FailureLine| (l.is_security, l.text@))
}

/// `line` shows test `t`.
pub open spec fn shows_test(line: TestLine, t: TestReport) -> bool {
    &&& line.display_name@ == display_name(t)
    &&& line.passed == t.passed
    &&& if t.passed {
        line.failures@.len() == 0 && line.error is None
    } else {
        failure_views(line.failures@) == failure_lines(t.assertion_results@) && line.error
            == t.error
    }
}

/// The test is tagged `rbac`.
pub open spec fn is_rbac(t: TestReport) -> bool {
    exists|i: int| 0 <= i < t.tags@.len() && #[trigger] t.tags@[i]@ == "rbac"@
}

/// The test has a security assertion.
pub open spec fn has_security(t: TestReport) -> bool {
    exists|i: int|
        0 <= i < t.assertion_results@.len() && #[trigger] t.assertion_results@[i].is_security
}

/// The role of a test: the part of its name before `" — "`, or its id when it has no name.
pub open spec fn role_of(t: TestReport) -> Seq<char> {
    match t.test_name {
        Some(n) => first_piece(n@, " — "@),
        None => t.test_id@,
    }
}

/// Number of tests of `tests` for which `p` holds, and of those that passed.
pub open spec fn count_where(tests: Seq<TestReport>, p: spec_fn(TestReport) -> bool, only_passed: bool) -> nat
    decreases tests.len(),
{
    if tests.len() == 0 {
        0
    } else {
        count_where(tests.drop_last(), p, only_passed) + if p(tests.last()) && (!only_passed
            || tests.last().passed) {
            1nat
        } else {
            0nat
        }
    }
}

/// The `rbac` tests of role `role`.
pub open spec fn in_role(role: Seq<char>) -> spec_fn(TestReport) -> bool {
    |t: TestReport| is_rbac(t) && role_of(t) == role
}

/// `roles` holds one entry per role of the `rbac` tests of `tests`, strictly ordered
/// by role, each with the number of that role's tests and of those that passed.
pub open spec fn tallies_roles(roles: Seq<RoleTally>, tests: Seq<TestReport>) -> bool {
    &&& forall|i: int, j: int|
        0 <= i < j < roles.len() ==> text_less(#[trigger] roles[i].role@, #[trigger] roles[j].role@)
    &&& forall|i: int|
        0 <= i < roles.len() ==> {
            &&& #[trigger] roles[i].total == count_where(tests, in_role(roles[i].role@), false)
            &&& roles[i].passed == count_where(tests, in_role(roles[i].role@), true)
            &&& roles[i].total > 0
        }
    &&& forall|k: int|
        0 <= k < tests.len() && is_rbac(#[trigger] tests[k]) ==> exists|i: int|
            0 <= i < roles.len() && roles[i].role@ == role_of(tests[k])
}

/// `line` shows every test of `tests`, in order.
pub open spec fn shows_tests(lines: Seq<TestLine>, tests: Seq<TestReport>) -> bool {
    &&& lines.len() == tests.len()
    &&& forall|i: int| 0 <= i < tests.len() ==> shows_test(#[trigger] lines[i], tests[i])
}

/// Whether the test is tagged `rbac`.
fn tagged_rbac(t: &TestReport) -> (r: bool)
    ensures
        r == is_rbac(*t),
{
    let n = t.tags.len();
    let mut i: usize = 0;
    while i < n
        invariant
            n == t.tags@.len(),
            i <= n,
            forall|k: int| 0 <= k < i ==> #[trigger] t.tags@[k]@ != "rbac"@,
        decreases n - i,
    {
        if str_eq(t.tags[i].as_str(), "rbac") {
            return true;
        }
        i = i + 1;
    }
    false
}

/// Whether the test has a security assertion.
fn with_security(t: &TestReport) -> (r: bool)
    ensures
        r == has_security(*t),
{
    let n = t.assertion_results.len();
    let mut i: usize = 0;
    while i < n
        invariant
            n == t.assertion_results@.len(),
            i <= n,
            forall|k: int| 0 <= k < i ==> !#[trigger] t.assertion_results@[k].is_security,
        decreases n - i,
    {
        if t.assertion_results[i].is_security {
            return true;
        }
        i = i + 1;
    }
    false
}

/// The role of a test.
pub fn test_role(t: &TestReport) -> (r: String)
    ensures
        r@ == role_of(*t),
{
    match &t.test_name {
        Some(n) => split_first(n.as_str(), " — "),
        None => t.test_id.clone(),
    }
}

/// The console line of one test.
pub fn test_line(t: &TestReport) -> (r: TestLine)
    ensures
        shows_test(r, *t),
{
    let display_name = match &t.test_name {
        Some(n) => n.clone(),
        None => t.test_id.clone(),
    };
    if t.passed {
        return TestLine { display_name, passed: true, failures: Vec::new(), error: None };
    }
    let mut failures: Vec<FailureLine> = Vec::new();
    let n = t.assertion_results.len();
    let mut i: usize = 0;
    while i < n
        invariant
            n == t.assertion_results@.len(),
            i <= n,
            failure_views(failures@) == failure_lines(t.assertion_results@.take(i as int)),
        decreases n - i,
    {
        let a = &t.assertion_results[i];
        assert(t.assertion_results@.take(i + 1).drop_last() =~= t.assertion_results@.take(
            i as int,
        ));
        if !a.passed {
            let text = match &a.message {
                Some(m) => m.clone(),
                None => a.description.clone(),
            };
            let ghost before = failures@;
            failures.push(FailureLine { is_security: a.is_security, text });
            assert(failure_views(failures@) =~= failure_views(before).push(
                (a.is_security, failure_text(*a)),
            ));
        }
        i = i + 1;
    }
    assert(t.assertion_results@.take(n as int) =~= t.assertion_results@);
    let error = match &t.error {
        Some(e) => Some(e.clone()),
        None => None,
    };
    TestLine { display_name, passed: false, failures, error }
}


/// A count is at most the number of tests counted over.
pub proof fn lemma_count_bounded(tests: Seq<TestReport>, p: spec_fn(TestReport) -> bool, only_passed: bool)
    ensures
        count_where(tests, p, only_passed) <= tests.len(),
        count_where(tests, p, true) <= count_where(tests, p, false),
    decreases tests.len(),
{
    if tests.len() > 0 {
        lemma_count_bounded(tests.drop_last(), p, only_passed);
    }
}

/// A test is counted only where one satisfies the predicate.
pub proof fn lemma_count_witness(tests: Seq<TestReport>, p: spec_fn(TestReport) -> bool, only_passed: bool)
    requires
        count_where(tests, p, only_passed) > 0,
    ensures
        exists|k: int| 0 <= k < tests.len() && p(#[trigger] tests[k]),
    decreases tests.len(),
{
    if p(tests.last()) {
        assert(p(tests[tests.len() - 1]));
    } else {
        lemma_count_witness(tests.drop_last(), p, only_passed);
        let k = choose|k: int| 0 <= k < tests.len() - 1 && p(#[trigger] tests.drop_last()[k]);
        assert(tests[k] == tests.drop_last()[k]);
    }
}

/// Counts `t` into the role table of the tests done before it.
fn tally_test(table: &mut Vec<RoleTally>, t: &TestReport, Ghost(done): Ghost<Seq<TestReport>>)
    requires
        tallies_roles(old(table)@, done),
        done.len() < usize::MAX,
    ensures
        tallies_roles(final(table)@, done.push(*t)),
{
    let ghost now = done.push(*t);
    assert(now.drop_last() =~= done);
    if !tagged_rbac(t) {
        proof {
            assert forall|i: int| 0 <= i < table@.len() implies {
                &&& #[trigger] table@[i].total == count_where(now, in_role(table@[i].role@), false)
                &&& table@[i].passed == count_where(now, in_role(table@[i].role@), true)
                &&& table@[i].total > 0
            } by {
                assert(!in_role(table@[i].role@)(*t));
            }
            assert forall|k: int| 0 <= k < now.len() && is_rbac(#[trigger] now[k]) implies exists|i: int|
                0 <= i < table@.len() && table@[i].role@ == role_of(now[k]) by {
                assert(k < done.len());
                assert(now[k] == done[k]);
            }
        }
        return;
    }
    let role = test_role(t);
    let n = table.len();
    let mut j: usize = 0;
    while j < n && text_order(table[j].role.as_str(), role.as_str()) == TextOrder::Less
        invariant
            n == table@.len(),
            j <= n,
            forall|m: int| 0 <= m < j ==> text_less(#[trigger] table@[m].role@, role@),
        decreases n - j,
    {
        j = j + 1;
    }
    let ghost old_table = table@;
    proof {
        lemma_count_bounded(done, in_role(role@), false);
        lemma_count_bounded(done, in_role(role@), true);
    }
    if j < n && text_order(table[j].role.as_str(), role.as_str()) == TextOrder::Equal {
        proof {
            lemma_count_bounded(done, in_role(table@[j as int].role@), false);
            lemma_count_bounded(done, in_role(table@[j as int].role@), true);
        }
        let entry = RoleTally {
            role: table[j].role.clone(),
            total: table[j].total + 1,
            passed: if t.passed {
                table[j].passed + 1
            } else {
                table[j].passed
            },
        };
        table.set(j, entry);
        proof {
            assert forall|i: int| 0 <= i < table@.len() implies {
                &&& #[trigger] table@[i].total == count_where(now, in_role(table@[i].role@), false)
                &&& table@[i].passed == count_where(now, in_role(table@[i].role@), true)
                &&& table@[i].total > 0
            } by {
                if i != j {
                    if i < j {
                        lemma_text_less_asymmetric(old_table[i].role@, old_table[j as int].role@);
                    } else {
                        lemma_text_less_asymmetric(old_table[j as int].role@, old_table[i].role@);
                    }
                    assert(!in_role(table@[i].role@)(*t));
                }
            }
            assert forall|k: int| 0 <= k < now.len() && is_rbac(#[trigger] now[k]) implies exists|i: int|
                0 <= i < table@.len() && table@[i].role@ == role_of(now[k]) by {
                if k < done.len() {
                    assert(now[k] == done[k]);
                    let i = choose|i: int| 0 <= i < old_table.len() && old_table[i].role@ == role_of(done[k]);
                    assert(table@[i].role@ == old_table[i].role@);
                } else {
                    assert(table@[j as int].role@ == role_of(now[k]));
                }
            }
        }
    } else {
        proof {
            // `role` is in no entry, so no `rbac` test done so far has it.
            assert forall|m: int| 0 <= m < old_table.len() implies #[trigger] old_table[m].role@ != role@ by {
                if m < j {
                    lemma_text_less_asymmetric(old_table[m].role@, role@);
                } else {
                    assert(text_less(role@, old_table[j as int].role@));
                    if m > j {
                        lemma_text_less_transitive(role@, old_table[j as int].role@, old_table[m].role@);
                    }
                    lemma_text_less_asymmetric(role@, old_table[m].role@);
                }
            }
            if count_where(done, in_role(role@), false) > 0 {
                lemma_count_witness(done, in_role(role@), false);
                let k = choose|k: int| 0 <= k < done.len() && in_role(role@)(#[trigger] done[k]);
                assert(is_rbac(done[k]));
            }
        }
        let entry = RoleTally { role, total: 1, passed: if t.passed { 1 } else { 0 } };
        table.insert(j, entry);
        proof {
            assert forall|a: int, b: int|
                0 <= a < b < table@.len() implies text_less(#[trigger] table@[a].role@, #[trigger] table@[b].role@) by {
                if b < j {
                } else if a < j && b == j {
                } else if a < j && b > j {
                    assert(text_less(role@, old_table[j as int].role@));
                    if b - 1 > j {
                        lemma_text_less_transitive(role@, old_table[j as int].role@, old_table[b - 1].role@);
                    }
                    lemma_text_less_transitive(old_table[a].role@, role@, old_table[b - 1].role@);
                } else if a == j {
                    assert(text_less(role@, old_table[j as int].role@));
                    if b - 1 > j {
                        lemma_text_less_transitive(role@, old_table[j as int].role@, old_table[b - 1].role@);
                    }
                } else {
                    assert(table@[a] == old_table[a - 1]);
                    assert(table@[b] == old_table[b - 1]);
                }
            }
            assert forall|i: int| 0 <= i < table@.len() implies {
                &&& #[trigger] table@[i].total == count_where(now, in_role(table@[i].role@), false)
                &&& table@[i].passed == count_where(now, in_role(table@[i].role@), true)
                &&& table@[i].total > 0
            } by {
                if i < j {
                    assert(table@[i] == old_table[i]);
                    assert(!in_role(table@[i].role@)(*t));
                } else if i > j {
                    assert(table@[i] == old_table[i - 1]);
                    assert(!in_role(table@[i].role@)(*t));
                }
            }
            assert forall|k: int| 0 <= k < now.len() && is_rbac(#[trigger] now[k]) implies exists|i: int|
                0 <= i < table@.len() && table@[i].role@ == role_of(now[k]) by {
                if k < done.len() {
                    assert(now[k] == done[k]);
                    let i = choose|i: int| 0 <= i < old_table.len() && old_table[i].role@ == role_of(done[k]);
                    if i < j {
                        assert(table@[i] == old_table[i]);
                    } else {
                        assert(table@[i + 1] == old_table[i]);
                    }
                } else {
                    assert(table@[j as int].role@ == role_of(now[k]));
                }
            }
        }
    }
}


/// The tests tagged `rbac`.
pub open spec fn rbac_tests() -> spec_fn(TestReport) -> bool {
    |t: TestReport| is_rbac(t)
}

/// The tests with a security assertion.
pub open spec fn security_tests() -> spec_fn(TestReport) -> bool {
    |t: TestReport| has_security(t)
}

/// `s` summarises the `rbac` tests of `tests`.
pub open spec fn summarises_rbac(s: Option<RbacSummary>, tests: Seq<TestReport>) -> bool {
    if count_where(tests, rbac_tests(), false) > 0 {
        s matches Some(r) && {
            &&& tallies_roles(r.roles@, tests)
            &&& r.total == count_where(tests, rbac_tests(), false)
            &&& r.passed == count_where(tests, rbac_tests(), true)
        }
    } else {
        s is None
    }
}

/// `s` summarises the tests of `tests` that have a security assertion.
pub open spec fn summarises_security(s: Option<Tally>, tests: Seq<TestReport>) -> bool {
    if count_where(tests, security_tests(), false) > 0 {
        s matches Some(c) && {
            &&& c.total == count_where(tests, security_tests(), false)
            &&& c.passed == count_where(tests, security_tests(), true)
        }
    } else {
        s is None
    }
}

impl SuiteReport {
    /// What the console report of the suite shows: each test with its failures, the
    /// `rbac` tests by role, the security tests, and the totals.
    pub fn console_summary(&self) -> (r: ConsoleSummary)
        ensures
            r.suite_name == self.suite_name,
            r.total == self.total,
            r.passed == self.passed,
            r.failed == self.failed,
            shows_tests(r.tests@, self.tests@),
            summarises_rbac(r.rbac, self.tests@),
            summarises_security(r.security, self.tests@),
    {
        let mut lines: Vec<TestLine> = Vec::new();
        let mut roles: Vec<RoleTally> = Vec::new();
        let mut rbac_total: usize = 0;
        let mut rbac_passed: usize = 0;
        let mut sec_total: usize = 0;
        let mut sec_passed: usize = 0;
        let n = self.tests.len();
        let mut i: usize = 0;
        while i < n
            invariant
                n == self.tests@.len(),
                i <= n,
                shows_tests(lines@, self.tests@.take(i as int)),
                tallies_roles(roles@, self.tests@.take(i as int)),
                rbac_total == count_where(self.tests@.take(i as int), rbac_tests(), false),
                rbac_passed == count_where(self.tests@.take(i as int), rbac_tests(), true),
                sec_total == count_where(self.tests@.take(i as int), security_tests(), false),
                sec_passed == count_where(self.tests@.take(i as int), security_tests(), true),
            decreases n - i,
        {
            let t = &self.tests[i];
            let ghost done = self.tests@.take(i as int);
            let ghost now = self.tests@.take(i + 1);
            proof {
                assert(now =~= done.push(*t));
                assert(now.drop_last() =~= done);
                lemma_count_bounded(done, rbac_tests(), false);
                lemma_count_bounded(done, rbac_tests(), true);
                lemma_count_bounded(done, security_tests(), false);
                lemma_count_bounded(done, security_tests(), true);
            }
            let ghost before = lines@;
            lines.push(test_line(t));
            proof {
                assert forall|k: int| 0 <= k < now.len() implies shows_test(#[trigger] lines@[k], now[k]) by {
                    if k < i {
                        assert(lines@[k] == before[k]);
                        assert(now[k] == done[k]);
                    }
                }
            }
            tally_test(&mut roles, t, Ghost(done));
            if tagged_rbac(t) {
                rbac_total = rbac_total + 1;
                if t.passed {
                    rbac_passed = rbac_passed + 1;
                }
            }
            if with_security(t) {
                sec_total = sec_total + 1;
                if t.passed {
                    sec_passed = sec_passed + 1;
                }
            }
            i = i + 1;
        }
        assert(self.tests@.take(n as int) =~= self.tests@);
        let rbac = if rbac_total > 0 {
            Some(RbacSummary { roles, passed: rbac_passed, total: rbac_total })
        } else {
            None
        };
        let security = if sec_total > 0 {
            Some(Tally { passed: sec_passed, total: sec_total })
        } else {
            None
        };
        ConsoleSummary {
            suite_name: self.suite_name.clone(),
            total: self.total,
            tests: lines,
            rbac,
            security,
            passed: self.passed,
            failed: self.failed,
        }
    }
}

} // verus!
