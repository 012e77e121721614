use dev_deps::udeps::{command_args, interpret_output, parse};
use dev_deps::{DepError, DepKind, UnusedDep, UnusedKinds};
use serde_json::Value;

fn names(v: &Value, key: &str) -> Option<Vec<String>> {
    match v.get(key) {
        None => Some(Vec::new()),
        Some(Value::Array(items)) => {
            let mut out = Vec::new();
            for item in items {
                out.push(item.as_str()?.to_string());
            }
            Some(out)
        }
        Some(_) => None,
    }
}

fn kinds_of(v: &Value) -> Option<UnusedKinds> {
    if !v.is_object() {
        return None;
    }
    Some(UnusedKinds {
        normal: names(v, "normal")?,
        development: names(v, "development")?,
        build: names(v, "build")?,
    })
}

/// Decode `cargo udeps` output: the package entries of `unused_deps`, in key order.
fn decode(json: &str) -> (Vec<Option<UnusedKinds>>, Option<String>) {
    match serde_json::from_str::<Value>(json) {
        Err(e) => (Vec::new(), Some(e.to_string())),
        Ok(v) => {
            let mut packages = Vec::new();
            if let Some(map) = v.get("unused_deps").and_then(|m| m.as_object()) {
                for (_pkg, value) in map.iter() {
                    packages.push(kinds_of(value));
                }
            }
            (packages, None)
        }
    }
}

fn parse_json(json: &str) -> Result<Vec<UnusedDep>, DepError> {
    let (packages, failure) = decode(json);
    parse(json, packages, failure)
}

#[test]
fn udeps_empty_input_yields_no_findings() {
    assert!(parse_json("").unwrap().is_empty());
}

#[test]
fn parses_single_package_unused_deps() {
    let json = r#"{
        "success": false,
        "unused_deps": {
            "my-crate 0.1.0 (path+file:///some/dir)": {
                "manifest_path": "/some/dir/Cargo.toml",
                "normal": ["foo", "bar"],
                "development": ["baz"],
                "build": []
            }
        }
    }"#;
    let findings = parse_json(json).unwrap();
    assert_eq!(findings.len(), 3);
    let names: Vec<&str> = findings.iter().map(|u| u.crate_name.as_str()).collect();
    assert!(names.contains(&"foo"));
    assert!(names.contains(&"bar"));
    assert!(names.contains(&"baz"));
}

#[test]
fn assigns_kinds_correctly() {
    let json = r#"{
        "unused_deps": {
            "p": {
                "normal": ["n"],
                "development": ["d"],
                "build": ["b"]
            }
        }
    }"#;
    let findings = parse_json(json).unwrap();
    let kinds: Vec<DepKind> = findings.iter().map(|u| u.kind).collect();
    assert!(kinds.contains(&DepKind::Normal));
    assert!(kinds.contains(&DepKind::Development));
    assert!(kinds.contains(&DepKind::Build));
}

#[test]
fn handles_multiple_packages() {
    let json = r#"{
        "unused_deps": {
            "a 0.1.0": { "normal": ["x"] },
            "b 0.2.0": { "normal": ["y"] }
        }
    }"#;
    let findings = parse_json(json).unwrap();
    assert_eq!(findings.len(), 2);
}

#[test]
fn missing_unused_deps_is_empty() {
    let findings = parse_json(r#"{ "success": true }"#).unwrap();
    assert!(findings.is_empty());
}

#[test]
fn udeps_rejects_garbage_input() {
    let err = parse_json("not json").err().unwrap();
    assert!(matches!(err, DepError::ParseError(_)));
}

#[test]
fn ignores_unparseable_package_entries() {
    let json = r#"{
        "unused_deps": {
            "good": { "normal": ["x"] },
            "bad":  "not an object"
        }
    }"#;
    let findings = parse_json(json).unwrap();
    // The "good" entry produces a finding; "bad" is skipped.
    assert_eq!(findings.len(), 1);
    assert_eq!(findings[0].crate_name, "x");
}

#[test]
fn findings_keep_section_order() {
    let packages = vec![
        Some(UnusedKinds {
            normal: vec!["n".to_string()],
            development: vec!["d".to_string()],
            build: vec!["b".to_string()],
        }),
        None,
        Some(UnusedKinds {
            normal: Vec::new(),
            development: Vec::new(),
            build: vec!["z".to_string()],
        }),
    ];
    let findings = parse("{}", packages, None).unwrap();
    let got: Vec<(&str, DepKind)> = findings.iter().map(|u| (u.crate_name.as_str(), u.kind)).collect();
    assert_eq!(
        got,
        vec![
            ("n", DepKind::Normal),
            ("d", DepKind::Development),
            ("b", DepKind::Build),
            ("z", DepKind::Build)
        ]
    );
}

#[test]
fn udeps_failure_message_quotes_untrimmed_output() {
    let r = parse(" bad", Vec::new(), Some("expected value".to_string()));
    match r {
        Err(DepError::ParseError(m)) => {
            assert_eq!(m, "expected value; first 200 chars: \" bad\"")
        }
        other => panic!("unexpected {other:?}"),
    }
}

#[test]
fn udeps_blank_failed_run_is_subprocess_failure() {
    let r = interpret_output("\n", false, "no nightly".to_string(), Vec::new(), None);
    match r {
        Err(DepError::SubprocessFailed(s)) => assert_eq!(s, "no nightly"),
        other => panic!("unexpected {other:?}"),
    }
}

#[test]
fn udeps_command_args() {
    assert_eq!(command_args(false), vec!["+nightly", "udeps", "--output", "json"]);
    assert_eq!(
        command_args(true),
        vec!["+nightly", "udeps", "--output", "json", "--workspace"]
    );
}

#[test]
fn udeps_garbage_that_splits_a_character_at_byte_200_is_a_parse_error() {
    let json = format!("x{}", "é".repeat(100));
    match parse_json(&json) {
        Err(DepError::ParseError(m)) => {
            let expected = format!("; first 200 chars: \"x{}\"", "é".repeat(99));
            assert!(m.ends_with(&expected), "{m}");
        }
        other => panic!("unexpected {other:?}"),
    }
    let (packages, failure) = decode(&json);
    let r = interpret_output(&json, false, String::new(), packages, failure);
    assert!(matches!(r, Err(DepError::ParseError(_))));
}
