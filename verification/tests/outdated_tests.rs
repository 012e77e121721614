use dev_deps::outdated::{interpret_output, parse};
use dev_deps::{dep_kind_from_label, major, major_diff, DepError, DepKind, OutdatedDep, OutdatedEntry};
use serde_json::Value;

fn text_field(v: &Value, key: &str) -> String {
    v.get(key).and_then(|x| x.as_str()).unwrap_or("").to_string()
}

fn entries_of(report: &Value) -> Vec<OutdatedEntry> {
    let mut out = Vec::new();
    if let Some(deps) = report.get("dependencies").and_then(|d| d.as_array()) {
        for e in deps {
            out.push(OutdatedEntry {
                name: text_field(e, "name"),
                project: text_field(e, "project"),
                latest: text_field(e, "latest"),
                kind: e.get("kind").and_then(|k| k.as_str()).map(|k| k.to_string()),
            });
        }
    }
    out
}

/// Decode the concatenated JSON objects of `cargo outdated` output.
fn decode(json: &str) -> (Vec<Vec<OutdatedEntry>>, Option<String>) {
    let mut reports = Vec::new();
    let mut failure = None;
    for item in serde_json::Deserializer::from_str(json.trim()).into_iter::<Value>() {
        match item {
            Ok(v) => reports.push(entries_of(&v)),
            Err(e) => {
                failure = Some(e.to_string());
                break;
            }
        }
    }
    (reports, failure)
}

fn parse_json(json: &str) -> Result<Vec<OutdatedDep>, DepError> {
    let (reports, failure) = decode(json);
    parse(json, reports, failure)
}

#[test]
fn outdated_empty_input_yields_no_findings() {
    assert!(parse_json("").unwrap().is_empty());
}

#[test]
fn parses_a_single_workspace_member() {
    let json = r#"{
        "crate_name": "root",
        "dependencies": [
            { "name": "serde", "project": "1.0.0", "compat": "1.0.5", "latest": "2.0.0", "kind": "Normal" },
            { "name": "tokio", "project": "1.2.0", "latest": "1.30.0", "kind": "Normal" }
        ]
    }"#;
    let findings = parse_json(json).unwrap();
    assert_eq!(findings.len(), 2);
    let serde_finding = findings.iter().find(|f| f.crate_name == "serde").unwrap();
    assert_eq!(serde_finding.current, "1.0.0");
    assert_eq!(serde_finding.latest, "2.0.0");
    assert_eq!(serde_finding.major_behind, 1);
    let tokio_finding = findings.iter().find(|f| f.crate_name == "tokio").unwrap();
    assert_eq!(tokio_finding.major_behind, 0); // same major, different minor
}

#[test]
fn parses_multiple_workspace_members_concatenated() {
    let json = format!(
        "{}{}",
        r#"{"crate_name":"a","dependencies":[{"name":"serde","project":"1.0.0","latest":"2.0.0","kind":"Normal"}]}"#,
        r#"{"crate_name":"b","dependencies":[{"name":"tokio","project":"1.0.0","latest":"1.5.0","kind":"Normal"}]}"#,
    );
    let findings = parse_json(&json).unwrap();
    assert_eq!(findings.len(), 2);
}

#[test]
fn skips_entries_with_no_update() {
    let json = r#"{
        "dependencies": [
            { "name": "serde", "project": "1.0.5", "latest": "1.0.5", "kind": "Normal" }
        ]
    }"#;
    assert!(parse_json(json).unwrap().is_empty());
}

#[test]
fn skips_sentinel_dashes() {
    let json = r#"{
        "dependencies": [
            { "name": "---", "project": "---", "latest": "---", "kind": "Normal" }
        ]
    }"#;
    assert!(parse_json(json).unwrap().is_empty());
}

#[test]
fn major_diff_handles_multi_digit_majors() {
    assert_eq!(major_diff("1.0.0", "10.0.0"), 9);
    assert_eq!(major_diff("0.9.2", "0.9.5"), 0);
    assert_eq!(major_diff("3.0.0", "1.0.0"), 0); // saturating
}

#[test]
fn major_strips_leading_caret_or_tilde() {
    assert_eq!(major("^1.2.3"), Some(1));
    assert_eq!(major("~2.0"), Some(2));
    assert_eq!(major("not-a-version"), None);
}

#[test]
fn dep_kind_from_label_handles_known_strings() {
    assert_eq!(dep_kind_from_label(Some("Normal")), Some(DepKind::Normal));
    assert_eq!(
        dep_kind_from_label(Some("development")),
        Some(DepKind::Development)
    );
    assert_eq!(dep_kind_from_label(Some("dev")), Some(DepKind::Development));
    assert_eq!(dep_kind_from_label(Some("build")), Some(DepKind::Build));
    assert_eq!(dep_kind_from_label(Some("???")), None);
    assert_eq!(dep_kind_from_label(None), None);
}

#[test]
fn outdated_rejects_garbage_input() {
    let err = parse_json("not json").err().unwrap();
    assert!(matches!(err, DepError::ParseError(_)));
}

#[test]
fn major_edge_cases() {
    assert_eq!(major(""), None);
    assert_eq!(major("1"), Some(1));
    assert_eq!(major("v007.1"), Some(7));
    assert_eq!(major("1-beta.2"), None);
    assert_eq!(major("4294967295.0"), Some(4294967295));
    assert_eq!(major("4294967296.0"), None);
    assert_eq!(major(".5"), Some(5));
}

#[test]
fn kind_labels_ignore_ascii_case() {
    assert_eq!(dep_kind_from_label(Some("BUILD")), Some(DepKind::Build));
    assert_eq!(dep_kind_from_label(Some("Dev")), Some(DepKind::Development));
    assert_eq!(dep_kind_from_label(Some("normals")), None);
    assert_eq!(dep_kind_from_label(Some("")), None);
}

#[test]
fn findings_carry_kind_and_lag() {
    let json = r#"{"dependencies":[{"name":"rand","project":"0.7.3","latest":"0.8.5","kind":"Development"},{"name":"x","project":"1.0.0","latest":"3.1.0"}]}"#;
    let findings = parse_json(json).unwrap();
    assert_eq!(findings.len(), 2);
    assert_eq!(findings[0].crate_name, "rand");
    assert_eq!(findings[0].kind, Some(DepKind::Development));
    assert_eq!(findings[0].major_behind, 0);
    assert_eq!(findings[1].kind, None);
    assert_eq!(findings[1].major_behind, 2);
}

#[test]
fn entries_missing_a_version_are_skipped() {
    let json = r#"{"dependencies":[{"name":"a","latest":"2.0.0"},{"name":"b","project":"1.0.0"},{"project":"1.0.0","latest":"2.0.0"}]}"#;
    assert!(parse_json(json).unwrap().is_empty());
}

#[test]
fn whitespace_only_output_is_empty() {
    assert!(parse_json(" \n\t ").unwrap().is_empty());
}

#[test]
fn decoding_failure_message_quotes_the_output() {
    let err = parse_json("  not json  ").err().unwrap();
    match err {
        DepError::ParseError(m) => {
            assert!(m.ends_with("; first 200 chars: \"not json\""), "{m}");
        }
        other => panic!("unexpected {other:?}"),
    }
}

#[test]
fn error_after_a_good_object_still_fails() {
    let json = r#"{"dependencies":[]} oops"#;
    assert!(matches!(parse_json(json), Err(DepError::ParseError(_))));
}

#[test]
fn no_objects_is_an_error() {
    let r = parse("x", Vec::new(), None);
    match r {
        Err(DepError::ParseError(m)) => assert_eq!(
            m,
            "no JSON objects found in `cargo outdated` output; first 200 chars: \"x\""
        ),
        other => panic!("unexpected {other:?}"),
    }
}

#[test]
fn blank_output_of_a_failed_run_is_a_subprocess_failure() {
    let r = interpret_output("  ", false, "boom".to_string(), Vec::new(), None);
    match r {
        Err(DepError::SubprocessFailed(s)) => assert_eq!(s, "boom"),
        other => panic!("unexpected {other:?}"),
    }
    // A failed run that printed something is still read.
    let r = interpret_output("  ", true, "boom".to_string(), Vec::new(), None);
    assert!(r.unwrap().is_empty());
}

#[test]
fn outdated_command_args() {
    let args = dev_deps::outdated::command_args(true, &vec!["a".to_string(), "b".to_string()]);
    assert_eq!(
        args,
        vec![
            "outdated",
            "--format",
            "json",
            "--workspace",
            "--root-deps-only",
            "--exclude",
            "a",
            "--exclude",
            "b"
        ]
    );
    let args = dev_deps::outdated::command_args(false, &Vec::new());
    assert_eq!(args, vec!["outdated", "--format", "json"]);
}

#[test]
fn unparseable_versions_give_no_lag() {
    assert_eq!(major_diff("not-a-version", "3.0.0"), 0);
    assert_eq!(major_diff("1.0.0", "latest"), 0);
    assert_eq!(major_diff("*", "*"), 0);
    assert_eq!(major_diff("^1.2", "~4.0"), 3);
}

#[test]
fn garbage_that_splits_a_character_at_byte_200_is_a_parse_error() {
    let json = format!("x{}", "é".repeat(100));
    assert_eq!(json.len(), 201);
    match parse_json(&json) {
        Err(DepError::ParseError(m)) => {
            // The excerpt stops before the character that straddles byte 200.
            let expected = format!("; first 200 chars: \"x{}\"", "é".repeat(99));
            assert!(m.ends_with(&expected), "{m}");
        }
        other => panic!("unexpected {other:?}"),
    }
    let r = parse(&json, Vec::new(), None);
    assert!(matches!(r, Err(DepError::ParseError(_))));
    let r = interpret_output(&json, false, String::new(), Vec::new(), None);
    assert!(matches!(r, Err(DepError::ParseError(_))));
}
