//! Severity and verdict levels, and the policy that assigns them.
use vstd::prelude::*;

verus! {

/// Severity classification of a finding, from least to most serious.
#[derive(Debug, Clone, Copy, PartialEq, Eq, Structural)]
pub enum Severity {
    /// Informational. Does not block acceptance.
    Info,
    /// Warning. Acceptance allowed with explicit acknowledgement.
    Warning,
    /// Error. Blocks acceptance.
    Error,
    /// Critical. Blocks acceptance and signals a regression.
    Critical,
}

/// Outcome of a single check in a report.
#[derive(Debug, Clone, Copy, PartialEq, Eq, Structural)]
pub enum Verdict {
    /// Check passed.
    Pass,
    /// Check failed.
    Fail,
    /// Check produced a warning.
    Warn,
    /// Check was skipped.
    Skip,
}

/// Numeric rank of a severity: `Info < Warning < Error < Critical`.
pub open spec fn rank(s: Severity) -> u8 {
    match s {
        Severity::Info => 0,
        Severity::Warning => 1,
        Severity::Error => 2,
        Severity::Critical => 3,
    }
}

/// Rank of a severity, used to compare severities.
pub fn severity_ord(s: Severity) -> (r: u8)
    ensures
        r == rank(s),
{
    match s {
        Severity::Info => 0,
        Severity::Warning => 1,
        Severity::Error => 2,
        Severity::Critical => 3,
    }
}

/// Two severities of equal rank are the same severity.
pub proof fn lemma_rank_injective(a: Severity, b: Severity)
    ensures
        rank(a) == rank(b) <==> a == b,
{
}

} // verus!
