//! The two kinds of finding and the severity policy applied to them.
use vstd::prelude::*;
use crate::kinds::DepKind;
use crate::severity::{rank, Severity};

verus! {

/// An unused-dependency finding.
#[derive(Debug, Clone)]
pub struct UnusedDep {
    /// Crate name as declared in `Cargo.toml`.
    pub crate_name: String,
    /// Where the dependency is declared.
    pub kind: DepKind,
}

/// The content of an unused-dependency finding.
pub struct UnusedDepView {
    pub crate_name: Seq<char>,
    pub kind: DepKind,
}

impl View for UnusedDep {
    type V = UnusedDepView;

    open spec fn view(&self) -> UnusedDepView {
        UnusedDepView { crate_name: self.crate_name@, kind: self.kind }
    }
}

impl DeepView for UnusedDep {
    type V = UnusedDepView;

    open spec fn deep_view(&self) -> UnusedDepView {
        self@
    }
}

/// An outdated-dependency finding.
#[derive(Debug, Clone)]
pub struct OutdatedDep {
    /// Crate name.
    pub crate_name: String,
    /// Current version pinned in `Cargo.toml`.
    pub current: String,
    /// Latest available version on the registry.
    pub latest: String,
    /// How many major versions behind the current pin is.
    pub major_behind: u32,
    /// Where the dependency is declared, when the underlying tool exposed it.
    pub kind: Option<DepKind>,
}

/// The content of an outdated-dependency finding.
pub struct OutdatedDepView {
    pub crate_name: Seq<char>,
    pub current: Seq<char>,
    pub latest: Seq<char>,
    pub major_behind: u32,
    pub kind: Option<DepKind>,
}

impl View for OutdatedDep {
    type V = OutdatedDepView;

    open spec fn view(&self) -> OutdatedDepView {
        OutdatedDepView {
            crate_name: self.crate_name@,
            current: self.current@,
            latest: self.latest@,
            major_behind: self.major_behind,
            kind: self.kind,
        }
    }
}

impl DeepView for OutdatedDep {
    type V = OutdatedDepView;

    open spec fn deep_view(&self) -> OutdatedDepView {
        self@
    }
}

/// The severity policy for an outdated dependency: `Info` for 0–1 major
/// behind, `Warning` for 2 or more, and `Error` once at least the
/// escalation threshold is reached.
pub open spec fn outdated_severity(major_behind: u32, escalate_at: Option<u32>) -> Severity {
    if escalate_at is Some && major_behind >= escalate_at->0 {
        Severity::Error
    } else if major_behind >= 2 {
        Severity::Warning
    } else {
        Severity::Info
    }
}

impl UnusedDep {
    /// Severity assigned to this finding (always `Warning`).
    pub fn severity(&self) -> (r: Severity)
        ensures
            r == Severity::Warning,
    {
        Severity::Warning
    }
}

impl OutdatedDep {
    /// Severity assigned to this finding.
    ///
    /// `Info` for 0–1 major behind; `Warning` for 2+ majors behind.
    /// When `escalate_at` is `Some(n)` and the crate is at least `n`
    /// majors behind, the severity is bumped to `Error`.
    pub fn severity(&self, escalate_at: Option<u32>) -> (r: Severity)
        ensures
            r == outdated_severity(self.major_behind, escalate_at),
    {
        if let Some(n) = escalate_at {
            if self.major_behind >= n {
                return Severity::Error;
            }
        }
        if self.major_behind >= 2 {
            Severity::Warning
        } else {
            Severity::Info
        }
    }
}

/// Escalation never lowers a severity, and without escalation an outdated
/// finding is never worse than `Warning`.
pub proof fn lemma_escalation_only_raises(major_behind: u32, n: u32)
    ensures
        rank(outdated_severity(major_behind, Some(n))) >= rank(outdated_severity(major_behind, None)),
        rank(outdated_severity(major_behind, None)) <= rank(Severity::Warning),
        major_behind >= n ==> outdated_severity(major_behind, Some(n)) == Severity::Error,
        major_behind < n ==> outdated_severity(major_behind, Some(n)) == outdated_severity(
            major_behind,
            None,
        ),
{
}

/// Falling further behind never lowers the severity.
pub proof fn lemma_severity_monotone(a: u32, b: u32, escalate_at: Option<u32>)
    requires
        a <= b,
    ensures
        rank(outdated_severity(a, escalate_at)) <= rank(outdated_severity(b, escalate_at)),
{
}

} // verus!
