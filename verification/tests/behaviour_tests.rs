use dev_deps::text::{decimal_string, is_blank, str_lt, trim};
use dev_deps::{
    first_200, scope_label, severity_ord, DepCheck, DepError, DepKind, DepProducer, DepResult,
    DepScope, OutdatedDep, ScanAction, ScanEvent, Scanner, Severity, UnusedDep,
};
use dev_report::{EvidenceData, Verdict};

fn u(name: &str, kind: DepKind) -> UnusedDep {
    UnusedDep { crate_name: name.to_string(), kind }
}

fn o(name: &str, cur: &str, latest: &str, major_behind: u32) -> OutdatedDep {
    OutdatedDep {
        crate_name: name.to_string(),
        current: cur.to_string(),
        latest: latest.to_string(),
        major_behind,
        kind: None,
    }
}

#[test]
fn finalize_sorts_and_dedups_unused_by_name_then_kind() {
    let c = DepCheck::new("x", "1.0.0");
    let r = c.finalize(
        vec![
            u("zeta", DepKind::Normal),
            u("alpha", DepKind::Build),
            u("alpha", DepKind::Normal),
            u("zeta", DepKind::Normal),
            u("alpha", DepKind::Development),
        ],
        Vec::new(),
    );
    let got: Vec<(&str, DepKind)> = r.unused.iter().map(|x| (x.crate_name.as_str(), x.kind)).collect();
    assert_eq!(
        got,
        vec![
            ("alpha", DepKind::Normal),
            ("alpha", DepKind::Development),
            ("alpha", DepKind::Build),
            ("zeta", DepKind::Normal)
        ]
    );
    assert_eq!(r.name, "x");
    assert_eq!(r.version, "1.0.0");
    assert_eq!(r.scope, DepScope::All);
}

#[test]
fn finalize_keeps_first_outdated_of_each_name() {
    let c = DepCheck::new("x", "1.0.0");
    let r = c.finalize(
        Vec::new(),
        vec![o("b", "1.0.0", "2.0.0", 1), o("a", "1.0.0", "4.0.0", 3), o("b", "0.1.0", "9.0.0", 9)],
    );
    let got: Vec<(&str, u32)> = r.outdated.iter().map(|x| (x.crate_name.as_str(), x.major_behind)).collect();
    assert_eq!(got, vec![("a", 3), ("b", 1)]);
}

#[test]
fn finalize_applies_allow_list_excludes_and_threshold() {
    let c = DepCheck::new("x", "1.0.0")
        .allow("allowed")
        .exclude("excluded")
        .severity_threshold(Severity::Warning)
        .escalate_at_majors(5);
    let r = c.finalize(
        vec![u("allowed", DepKind::Normal), u("excluded", DepKind::Normal), u("kept", DepKind::Build)],
        vec![
            o("allowed", "1.0.0", "9.0.0", 8),
            o("excluded", "1.0.0", "3.0.0", 2),
            o("minor", "1.0.0", "2.0.0", 1),
            o("far", "1.0.0", "9.0.0", 8),
        ],
    );
    let unused: Vec<&str> = r.unused.iter().map(|x| x.crate_name.as_str()).collect();
    assert_eq!(unused, vec!["kept"]);
    // excludes only filter unused findings here; the tool itself is told to skip them.
    let outdated: Vec<&str> = r.outdated.iter().map(|x| x.crate_name.as_str()).collect();
    assert_eq!(outdated, vec!["excluded", "far"]);
    assert_eq!(r.escalate_at_majors, Some(5));
}

#[test]
fn threshold_above_warning_drops_unused() {
    let c = DepCheck::new("x", "1.0.0").severity_threshold(Severity::Error);
    let r = c.finalize(vec![u("a", DepKind::Normal)], vec![o("b", "1.0.0", "3.0.0", 2)]);
    assert!(r.unused.is_empty());
    assert!(r.outdated.is_empty());
}

#[test]
fn allow_all_adds_every_name() {
    let c = DepCheck::new("x", "1.0.0").allow_all(["a", "b"]);
    let r = c.finalize(
        vec![u("a", DepKind::Normal), u("b", DepKind::Normal), u("c", DepKind::Normal)],
        Vec::new(),
    );
    assert_eq!(r.unused.len(), 1);
    assert_eq!(r.unused[0].crate_name, "c");
}

#[test]
fn builder_sets_workdir_and_args() {
    let c = DepCheck::new("x", "1.0.0").in_dir("/tmp/w").workspace().exclude("e");
    assert_eq!(c.working_dir(), Some("/tmp/w"));
    assert_eq!(c.udeps_args(), vec!["+nightly", "udeps", "--output", "json", "--workspace"]);
    assert_eq!(
        c.outdated_args(),
        vec!["outdated", "--format", "json", "--workspace", "--root-deps-only", "--exclude", "e"]
    );
    assert_eq!(DepCheck::new("y", "0").working_dir(), None);
}

#[test]
fn report_details_tags_and_evidence() {
    let r = DepResult {
        name: "subj".to_string(),
        version: "2.0.0".to_string(),
        scope: DepScope::All,
        unused: vec![u("legacy", DepKind::Development)],
        outdated: vec![OutdatedDep { kind: Some(DepKind::Build), ..o("serde", "1.0.0", "4.0.0", 3) }],
        escalate_at_majors: Some(3),
    };
    let report = r.into_report();
    assert_eq!(report.subject, "subj");
    assert_eq!(report.subject_version, "2.0.0");
    assert_eq!(report.producer.as_deref(), Some("dev-deps"));
    assert!(report.finished_at.is_some());
    assert_eq!(report.checks.len(), 2);
    let c0 = &report.checks[0];
    assert_eq!(c0.verdict, Verdict::Warn);
    assert_eq!(c0.severity, Some(dev_report::Severity::Warning));
    assert_eq!(c0.detail.as_deref(), Some("unused in dev-dependencies"));
    assert_eq!(c0.tags, vec!["deps".to_string(), "unused".to_string()]);
    match &c0.evidence[0].data {
        EvidenceData::KeyValue(m) => {
            assert_eq!(m.get("crate").map(|s| s.as_str()), Some("legacy"));
            assert_eq!(m.get("kind").map(|s| s.as_str()), Some("dev-dependencies"));
            assert_eq!(m.len(), 2);
        }
        other => panic!("unexpected {other:?}"),
    }
    let c1 = &report.checks[1];
    assert_eq!(c1.name, "deps::outdated::serde");
    assert_eq!(c1.verdict, Verdict::Fail);
    assert_eq!(c1.severity, Some(dev_report::Severity::Error));
    assert_eq!(c1.detail.as_deref(), Some("1.0.0 -> 4.0.0 (3 major behind)"));
    assert_eq!(c1.tags, vec!["deps".to_string(), "outdated".to_string()]);
    assert_eq!(c1.evidence[0].label, "major_behind");
    match &c1.evidence[0].data {
        EvidenceData::Numeric(v) => assert_eq!(*v, 3.0),
        other => panic!("unexpected {other:?}"),
    }
    match &c1.evidence[1].data {
        EvidenceData::KeyValue(m) => {
            assert_eq!(m.len(), 4);
            assert_eq!(m.get("current").map(|s| s.as_str()), Some("1.0.0"));
            assert_eq!(m.get("latest").map(|s| s.as_str()), Some("4.0.0"));
            assert_eq!(m.get("kind").map(|s| s.as_str()), Some("build-dependencies"));
        }
        other => panic!("unexpected {other:?}"),
    }
}

#[test]
fn health_check_names_the_scope() {
    let r = DepResult {
        name: "s".to_string(),
        version: "1".to_string(),
        scope: DepScope::Outdated,
        unused: Vec::new(),
        outdated: Vec::new(),
        escalate_at_majors: None,
    };
    let report = r.into_report();
    assert_eq!(report.checks.len(), 1);
    assert_eq!(report.checks[0].name, "deps::health");
    assert_eq!(report.checks[0].detail.as_deref(), Some("outdated scope: no findings"));
    assert_eq!(report.checks[0].tags, vec!["deps".to_string()]);
}

#[test]
fn without_escalation_every_outdated_finding_only_warns() {
    let r = DepResult {
        name: "s".to_string(),
        version: "1".to_string(),
        scope: DepScope::All,
        unused: Vec::new(),
        outdated: vec![o("a", "1.0.0", "40.0.0", 39)],
        escalate_at_majors: None,
    };
    let report = r.into_report();
    assert_eq!(report.checks[0].verdict, Verdict::Warn);
    assert_eq!(report.checks[0].severity, Some(dev_report::Severity::Warning));
}

#[test]
fn producer_reports_an_error_as_one_failing_check() {
    let p = DepProducer::new(DepCheck::new("self", "0.0.0").scope(DepScope::Unused));
    assert_eq!(p.check().subject(), "self");
    let report = p.report_for(Err(DepError::UdepsToolNotInstalled));
    assert_eq!(report.subject, "self");
    assert_eq!(report.subject_version, "0.0.0");
    assert_eq!(report.checks.len(), 1);
    let c = &report.checks[0];
    assert_eq!(c.name, "deps::health");
    assert_eq!(c.verdict, Verdict::Fail);
    assert_eq!(c.severity, Some(dev_report::Severity::Critical));
    assert!(c.has_tag("deps") && c.has_tag("subprocess"));
    assert_eq!(c.detail, Some(DepError::UdepsToolNotInstalled.message()));
    assert!(report.failed());
}

#[test]
fn producer_passes_a_result_through() {
    let p = DepProducer::new(DepCheck::new("self", "0.0.0"));
    let res = DepCheck::new("other", "9").finalize(Vec::new(), Vec::new());
    let report = p.report_for(Ok(res));
    assert_eq!(report.subject, "other");
    assert!(report.passed());
}

#[test]
fn error_messages() {
    assert_eq!(
        DepError::OutdatedToolNotInstalled.message(),
        "cargo-outdated is not installed; run `cargo install cargo-outdated`"
    );
    assert_eq!(
        DepError::UdepsToolNotInstalled.message(),
        "cargo-udeps is not installed (or nightly toolchain missing); run `cargo install cargo-udeps` and `rustup toolchain install nightly`"
    );
    assert_eq!(
        DepError::SubprocessFailed("x".to_string()).message(),
        "dependency check subprocess failed: x"
    );
    assert_eq!(
        DepError::ParseError("y".to_string()).message(),
        "could not parse subprocess output: y"
    );
}

#[test]
fn worst_severity_of_nothing_is_none() {
    let r = DepCheck::new("x", "1").finalize(Vec::new(), Vec::new());
    assert_eq!(r.worst_severity(), None);
    let r2 = DepCheck::new("x", "1").finalize(vec![u("a", DepKind::Normal)], vec![o("b", "1", "2", 1)]);
    assert_eq!(r2.worst_severity(), Some(Severity::Warning));
}

#[test]
fn severity_ranks_and_labels() {
    assert_eq!(severity_ord(Severity::Info), 0);
    assert_eq!(severity_ord(Severity::Warning), 1);
    assert_eq!(severity_ord(Severity::Error), 2);
    assert_eq!(severity_ord(Severity::Critical), 3);
    assert_eq!(scope_label(DepScope::Unused), "unused");
    assert_eq!(scope_label(DepScope::Outdated), "outdated");
    assert_eq!(scope_label(DepScope::All), "all");
}

#[test]
fn text_helpers() {
    assert_eq!(trim("  a b \n"), "a b");
    assert_eq!(trim("\u{a0}x\u{2003}"), "x");
    assert_eq!(trim(" \t "), "");
    assert!(is_blank("\n \t"));
    assert!(!is_blank(" x "));
    assert!(str_lt("abc", "abd"));
    assert!(str_lt("ab", "abc"));
    assert!(!str_lt("b", "abc"));
    assert!(!str_lt("same", "same"));
    assert_eq!(decimal_string(0), "0");
    assert_eq!(decimal_string(4294967295), "4294967295");
    assert_eq!(decimal_string(120), "120");
    let long = "x".repeat(250);
    assert_eq!(first_200(&long).len(), 200);
    assert_eq!(first_200("short"), "short");
    let accented = format!("x{}", "é".repeat(100));
    assert_eq!(first_200(&accented), format!("x{}", "é".repeat(99)));
    assert_eq!(first_200(&"é".repeat(100)), "é".repeat(100));
    let wide = "😀".repeat(60);
    assert_eq!(first_200(&wide), "😀".repeat(50));
}

#[test]
fn trim_agrees_with_char_is_whitespace() {
    for code in 0u32..=0x10FFFF {
        if let Some(c) = char::from_u32(code) {
            let s = c.to_string();
            assert_eq!(is_blank(&s), c.is_whitespace(), "U+{code:04X}");
        }
    }
}

fn names_of(r: &DepResult) -> (Vec<String>, Vec<String>) {
    (
        r.unused.iter().map(|x| x.crate_name.clone()).collect(),
        r.outdated.iter().map(|x| x.crate_name.clone()).collect(),
    )
}

#[test]
fn allow_all_matches_a_chain_of_allow() {
    let raw_unused = || vec![u("a", DepKind::Normal), u("b", DepKind::Build), u("c", DepKind::Normal)];
    let raw_outdated = || vec![o("a", "1.0.0", "2.0.0", 1), o("d", "1.0.0", "3.0.0", 2)];
    let bulk = DepCheck::new("x", "1.0.0").allow_all(["a", "b"]);
    let chain = DepCheck::new("x", "1.0.0").allow("a").allow("b");
    let r1 = bulk.finalize(raw_unused(), raw_outdated());
    let r2 = chain.finalize(raw_unused(), raw_outdated());
    assert_eq!(names_of(&r1), names_of(&r2));
    assert_eq!(names_of(&r1), (vec!["c".to_string()], vec!["d".to_string()]));
    let none: [&str; 0] = [];
    let r3 = DepCheck::new("x", "1.0.0").allow_all(none).finalize(raw_unused(), raw_outdated());
    assert_eq!(r3.unused.len(), 3);
    assert_eq!(r3.outdated.len(), 2);
}

fn runs_of(scope: DepScope) -> Vec<Scanner> {
    let c = DepCheck::new("x", "1.0.0").scope(scope);
    let mut ran = Vec::new();
    let mut event = ScanEvent::Started;
    loop {
        match c.next_action(event) {
            ScanAction::Run(s) => {
                ran.push(s);
                event = ScanEvent::Finished(s);
            }
            ScanAction::Finalize => return ran,
            ScanAction::Stop(e) => panic!("unexpected stop {e:?}"),
        }
    }
}

#[test]
fn scanners_run_in_scope_order() {
    assert_eq!(runs_of(DepScope::Unused), vec![Scanner::Udeps]);
    assert_eq!(runs_of(DepScope::Outdated), vec![Scanner::Outdated]);
    assert_eq!(runs_of(DepScope::All), vec![Scanner::Udeps, Scanner::Outdated]);
}

#[test]
fn a_scanner_failure_stops_the_run() {
    let c = DepCheck::new("x", "1.0.0");
    match c.next_action(ScanEvent::Failed(DepError::UdepsToolNotInstalled)) {
        ScanAction::Stop(DepError::UdepsToolNotInstalled) => {}
        other => panic!("unexpected {other:?}"),
    }
}

#[test]
fn counts_add_up() {
    let c = DepCheck::new("x", "1.0.0");
    let r = c.finalize(vec![u("a", DepKind::Normal)], vec![o("b", "1.0.0", "2.0.0", 1)]);
    assert_eq!(r.total_findings(), r.unused_count() + r.outdated_count());
    assert_eq!(r.total_findings(), 2);
    let empty = c.finalize(Vec::new(), Vec::new());
    assert_eq!(empty.total_findings(), 0);
    assert_eq!(empty.worst_severity(), None);
}
