# dev_deps

Dependency health checking for Rust: unused dependencies (reported by
`cargo-udeps`) and outdated ones (reported by `cargo-outdated`), rated by a
severity policy and turned into a `dev_report::Report`.

## Layout

- `src/` is the library, verified with Verus. It builds the scanners'
  command lines, reads what they report (once their JSON is decoded),
  filters the findings through the allow-list, the excludes and the severity
  threshold, sorts and de-duplicates them, rates them, and builds the report.
  `src/laws.rs` holds the properties of the library as a whole.
- `src/report.rs` describes, over models of its own, what each call into
  `dev_report` puts into a report; those calls are the library's trusted
  boundary.
- `app/` runs the scanners as subprocesses, decodes their JSON with serde,
  carries the serde wire format of the result types, and implements
  `dev_report::Producer`.
- `tests/` runs the library on concrete values.
