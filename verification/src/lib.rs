//! Dependency health checking for Rust: unused and outdated dependencies,
//! the severity policy applied to them, and the `dev_report` reports built
//! from them.
//!
//! The scanners themselves (`cargo-udeps`, `cargo-outdated`) run outside
//! this library; it decides what to run them with, reads what they report,
//! filters, orders and de-duplicates the findings, rates them and turns
//! them into a report.

pub mod check;
pub mod error;
pub mod findings;
pub mod kinds;
pub mod laws;
pub mod outdated;
pub mod plan;
pub mod producer;
pub mod report;
pub mod result;
pub mod severity;
pub mod text;
pub mod udeps;

pub use check::DepCheck;
pub use error::DepError;
pub use findings::{OutdatedDep, UnusedDep};
pub use kinds::{scope_label, DepKind, DepScope};
pub use outdated::{dep_kind_from_label, major, major_diff, OutdatedEntry};
pub use plan::{ScanAction, ScanEvent, Scanner};
pub use producer::DepProducer;
pub use result::DepResult;
pub use severity::{severity_ord, Severity, Verdict};
pub use text::first_200;
pub use udeps::UnusedKinds;
