use spice_framework::assertion::AssertionResult;
use spice_framework::clock::Timestamp;
use spice_framework::console::test_role;
use spice_framework::report::panicked_report;
use spice_framework::{SuiteReport, TestReport};
use std::time::Duration;

fn assertion(desc: &str, passed: bool, message: Option<&str>, is_security: bool) -> AssertionResult {
    AssertionResult {
        description: desc.to_string(),
        passed,
        message: message.map(|m| m.to_string()),
        is_security,
    }
}

fn report(id: &str, name: Option<&str>, tags: &[&str], passed: bool, results: Vec<AssertionResult>) -> TestReport {
    TestReport {
        test_id: id.to_string(),
        test_name: name.map(|n| n.to_string()),
        tags: tags.iter().map(|t| t.to_string()).collect(),
        passed,
        attempts: 1,
        assertion_results: results,
        duration: Duration::from_millis(10),
        error: if passed { None } else { Some("boom".to_string()) },
    }
}

fn sample() -> SuiteReport {
    let tests = vec![
        report("rbac-read-viewer", Some("viewer — can read"), &["rbac"], true, vec![]),
        report("rbac-write-admin", Some("admin — can write"), &["rbac"], true, vec![]),
        report(
            "rbac-write-viewer",
            Some("viewer — cannot write"),
            &["rbac", "security"],
            false,
            vec![
                assertion("no write tool", false, Some("called writeFile"), true),
                assertion("text ok", true, None, false),
                assertion("polite", false, None, false),
            ],
        ),
        report("basic-weather", None, &["basic"], true, vec![assertion("sec", true, None, true)]),
        report("rbac-guest", None, &["rbac"], false, vec![]),
    ];
    SuiteReport::assemble("Agent".to_string(), tests, Duration::from_secs(2), Timestamp(chrono::Utc::now()))
}

#[test]
fn assemble_counts_passes() {
    let s = sample();
    assert_eq!(s.total, 5);
    assert_eq!(s.passed, 3);
    assert_eq!(s.failed, 2);
    assert_eq!(s.passed + s.failed, s.tests.len());
    assert_eq!(s.suite_name, "Agent");
    assert_eq!(s.duration, Duration::from_secs(2));
}

#[test]
fn assemble_keeps_timestamp() {
    let at = chrono::DateTime::from_timestamp(1_700_000_000, 0).unwrap();
    let s = SuiteReport::assemble("S".to_string(), vec![], Duration::ZERO, Timestamp(at));
    assert_eq!(s.timestamp.0, at);
    assert_eq!((s.total, s.passed, s.failed), (0, 0, 0));
}

#[test]
fn panicked_report_fields() {
    let r = panicked_report("task 3 panicked");
    assert_eq!(r.test_id, "unknown");
    assert!(r.test_name.is_none());
    assert!(r.tags.is_empty());
    assert!(!r.passed);
    assert_eq!(r.attempts, 0);
    assert!(r.assertion_results.is_empty());
    assert_eq!(r.duration, Duration::ZERO);
    assert_eq!(r.error.as_deref(), Some("Task panicked: task 3 panicked"));
}

#[test]
fn roles_come_from_names_or_ids() {
    let s = sample();
    assert_eq!(test_role(&s.tests[0]), "viewer");
    assert_eq!(test_role(&s.tests[1]), "admin");
    assert_eq!(test_role(&s.tests[4]), "rbac-guest");
}

#[test]
fn console_summary_lines() {
    let s = sample();
    let c = s.console_summary();
    assert_eq!(c.suite_name, "Agent");
    assert_eq!((c.total, c.passed, c.failed), (5, 3, 2));
    assert_eq!(c.tests.len(), 5);
    assert_eq!(c.tests[0].display_name, "viewer — can read");
    assert!(c.tests[0].passed && c.tests[0].failures.is_empty() && c.tests[0].error.is_none());
    assert_eq!(c.tests[3].display_name, "basic-weather");
    let failing = &c.tests[2];
    assert!(!failing.passed);
    assert_eq!(failing.failures.len(), 2);
    assert!(failing.failures[0].is_security);
    assert_eq!(failing.failures[0].text, "called writeFile");
    assert!(!failing.failures[1].is_security);
    assert_eq!(failing.failures[1].text, "polite");
    assert_eq!(failing.error.as_deref(), Some("boom"));
}

#[test]
fn console_summary_rbac_by_role() {
    let c = sample().console_summary();
    let rbac = c.rbac.expect("rbac tests present");
    assert_eq!((rbac.passed, rbac.total), (2, 4));
    let roles: Vec<(String, usize, usize)> =
        rbac.roles.iter().map(|r| (r.role.clone(), r.passed, r.total)).collect();
    assert_eq!(
        roles,
        vec![
            ("admin".to_string(), 1, 1),
            ("rbac-guest".to_string(), 0, 1),
            ("viewer".to_string(), 1, 2),
        ]
    );
    // Law: the per-role counts add up to the RBAC totals.
    assert_eq!(rbac.roles.iter().map(|r| r.total).sum::<usize>(), rbac.total);
    assert_eq!(rbac.roles.iter().map(|r| r.passed).sum::<usize>(), rbac.passed);
}

#[test]
fn console_summary_security() {
    let c = sample().console_summary();
    let sec = c.security.expect("security tests present");
    assert_eq!((sec.passed, sec.total), (1, 2));
}

#[test]
fn console_summary_without_rbac_or_security() {
    let tests = vec![report("a", None, &["basic"], true, vec![assertion("x", true, None, false)])];
    let c = SuiteReport::assemble("S".to_string(), tests, Duration::ZERO, Timestamp(chrono::Utc::now())).console_summary();
    assert!(c.rbac.is_none());
    assert!(c.security.is_none());
    assert_eq!(c.failed, 0);
}
