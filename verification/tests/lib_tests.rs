use dev_deps::{DepCheck, DepKind, DepResult, DepScope, OutdatedDep, Severity, UnusedDep};
use dev_report::Verdict;

fn unused(name: &str, kind: DepKind) -> UnusedDep {
    UnusedDep {
        crate_name: name.into(),
        kind,
    }
}

fn outdated(name: &str, cur: &str, latest: &str, major_behind: u32) -> OutdatedDep {
    OutdatedDep {
        crate_name: name.into(),
        current: cur.into(),
        latest: latest.into(),
        major_behind,
        kind: Some(DepKind::Normal),
    }
}

fn make_result(unused_: Vec<UnusedDep>, outdated_: Vec<OutdatedDep>) -> DepResult {
    DepResult {
        name: "x".into(),
        version: "0.1.0".into(),
        scope: DepScope::All,
        unused: unused_,
        outdated: outdated_,
        escalate_at_majors: None,
    }
}

#[test]
fn empty_findings_produces_passing_report() {
    let r = make_result(Vec::new(), Vec::new());
    let report = r.into_report();
    assert!(report.passed());
}

#[test]
fn unused_findings_produce_warn_verdict() {
    let r = make_result(vec![unused("legacy", DepKind::Normal)], Vec::new());
    let report = r.into_report();
    assert!(report.warned());
    assert_eq!(report.checks.len(), 1);
    let c = &report.checks[0];
    assert!(c.has_tag("deps") && c.has_tag("unused"));
    assert_eq!(c.name, "deps::unused::legacy");
}

#[test]
fn outdated_one_major_is_info() {
    let r = make_result(Vec::new(), vec![outdated("foo", "1.0.0", "2.0.0", 1)]);
    let sev = r.outdated[0].severity(None);
    assert_eq!(sev, Severity::Info);
}

#[test]
fn outdated_two_or_more_majors_is_warning() {
    let r = make_result(Vec::new(), vec![outdated("foo", "1.0.0", "3.0.0", 2)]);
    assert_eq!(r.outdated[0].severity(None), Severity::Warning);
}

#[test]
fn escalate_at_majors_bumps_to_error_and_fail() {
    let mut r = make_result(Vec::new(), vec![outdated("foo", "1.0.0", "5.0.0", 4)]);
    r.escalate_at_majors = Some(3);
    assert_eq!(r.outdated[0].severity(Some(3)), Severity::Error);
    let report = r.into_report();
    // Error severity on outdated means CheckResult::fail; overall failed.
    assert!(report.failed());
    let c = &report.checks[0];
    assert_eq!(c.verdict, Verdict::Fail);
}

#[test]
fn escalate_does_not_fire_below_threshold() {
    let mut r = make_result(Vec::new(), vec![outdated("foo", "1.0.0", "2.0.0", 1)]);
    r.escalate_at_majors = Some(3);
    assert_eq!(r.outdated[0].severity(Some(3)), Severity::Info);
}

#[test]
fn total_findings_sums_both_categories() {
    let r = make_result(
        vec![
            unused("a", DepKind::Normal),
            unused("b", DepKind::Development),
        ],
        vec![outdated("c", "1.0.0", "2.0.0", 1)],
    );
    assert_eq!(r.total_findings(), 3);
    assert_eq!(r.unused_count(), 2);
    assert_eq!(r.outdated_count(), 1);
}

#[test]
fn worst_severity_picks_max_across_categories() {
    let mut r = make_result(
        vec![unused("a", DepKind::Normal)],
        vec![outdated("c", "1.0.0", "3.0.0", 2)],
    );
    r.escalate_at_majors = Some(2);
    assert_eq!(r.worst_severity(), Some(Severity::Error));
}

#[test]
fn lib_check_builder_chains() {
    let c = DepCheck::new("x", "0.1.0")
        .scope(DepScope::Outdated)
        .workspace()
        .exclude("ignored")
        .allow("legacy-shim")
        .allow_all(["a", "b"])
        .severity_threshold(Severity::Warning)
        .escalate_at_majors(3);
    assert_eq!(c.dep_scope(), DepScope::Outdated);
    assert_eq!(c.subject(), "x");
    assert_eq!(c.subject_version(), "0.1.0");
}

#[test]
fn depkind_label_matches_cargo_toml() {
    assert_eq!(DepKind::Normal.as_str(), "dependencies");
    assert_eq!(DepKind::Development.as_str(), "dev-dependencies");
    assert_eq!(DepKind::Build.as_str(), "build-dependencies");
}

#[test]
fn dep_scope_runs_helpers() {
    assert!(DepScope::All.runs_unused());
    assert!(DepScope::All.runs_outdated());
    assert!(DepScope::Unused.runs_unused());
    assert!(!DepScope::Unused.runs_outdated());
    assert!(DepScope::Outdated.runs_outdated());
    assert!(!DepScope::Outdated.runs_unused());
}
