//! The result of a dependency check and the summaries drawn from it.
use vstd::prelude::*;
use crate::findings::{outdated_severity, OutdatedDep, OutdatedDepView, UnusedDep, UnusedDepView};
use crate::kinds::DepScope;
use crate::severity::{rank, severity_ord, Severity};

verus! {

/// Result of a dependency check.
#[derive(Debug, Clone)]
pub struct DepResult {
    /// Subject name.
    pub name: String,
    /// Subject version.
    pub version: String,
    /// Scope that produced this result.
    pub scope: DepScope,
    /// Unused dependencies.
    pub unused: Vec<UnusedDep>,
    /// Outdated dependencies.
    pub outdated: Vec<OutdatedDep>,
    /// Major-version escalation threshold that was active when the
    /// result was produced.
    pub escalate_at_majors: Option<u32>,
}

/// The content of a result.
pub struct DepResultView {
    pub name: Seq<char>,
    pub version: Seq<char>,
    pub scope: DepScope,
    pub unused: Seq<UnusedDepView>,
    pub outdated: Seq<OutdatedDepView>,
    pub escalate_at_majors: Option<u32>,
}

impl View for DepResult {
    type V = DepResultView;

    open spec fn view(&self) -> DepResultView {
        DepResultView {
            name: self.name@,
            version: self.version@,
            scope: self.scope,
            unused: self.unused.deep_view(),
            outdated: self.outdated.deep_view(),
            escalate_at_majors: self.escalate_at_majors,
        }
    }
}

/// The number of findings of a result, of both kinds.
pub open spec fn finding_count(r: DepResultView) -> nat {
    r.unused.len() + r.outdated.len()
}

/// The severity of every finding: first the unused ones, then the outdated ones.
pub open spec fn finding_severities(r: DepResultView) -> Seq<Severity> {
    Seq::new(r.unused.len(), |i: int| Severity::Warning) + Seq::new(
        r.outdated.len(),
        |i: int| outdated_severity(r.outdated[i].major_behind, r.escalate_at_majors),
    )
}

/// The more serious of a running maximum and a new severity.
pub open spec fn bump(worst: Option<Severity>, s: Severity) -> Option<Severity> {
    match worst {
        None => Some(s),
        Some(prev) => if rank(s) > rank(prev) {
            Some(s)
        } else {
            Some(prev)
        },
    }
}

/// The most serious severity in a sequence, `None` when it is empty.
pub open spec fn worst_of(s: Seq<Severity>) -> Option<Severity>
    decreases s.len(),
{
    if s.len() == 0 {
        None
    } else {
        bump(worst_of(s.drop_last()), s.last())
    }
}

impl DepResult {
    /// Total findings across both categories.
    pub fn total_findings(&self) -> (n: usize)
        requires
            self.unused.len() + self.outdated.len() <= usize::MAX,
        ensures
            n == finding_count(self@),
    {
        self.unused.len() + self.outdated.len()
    }

    /// Number of unused-dependency findings.
    pub fn unused_count(&self) -> (n: usize)
        ensures
            n == self@.unused.len(),
    {
        self.unused.len()
    }

    /// Number of outdated-dependency findings.
    pub fn outdated_count(&self) -> (n: usize)
        ensures
            n == self@.outdated.len(),
    {
        self.outdated.len()
    }

    /// Highest severity present across all findings, if any.
    pub fn worst_severity(&self) -> (w: Option<Severity>)
        ensures
            w == worst_of(finding_severities(self@)),
    {
        let ghost sev = finding_severities(self@);
        let mut worst: Option<Severity> = None;
        let nu = self.unused.len();
        let no = self.outdated.len();
        let mut i: usize = 0;
        while i < nu
            invariant
                nu == self.unused.len(),
                no == self.outdated.len(),
                sev == finding_severities(self@),
                i <= nu,
                worst == worst_of(sev.take(i as int)),
            decreases nu - i,
        {
            let s = self.unused[i].severity();
            assert(sev.take(i + 1).drop_last() =~= sev.take(i as int));
            worst = Self::bump_exec(worst, s);
            i = i + 1;
        }
        let mut j: usize = 0;
        while j < no
            invariant
                nu == self.unused.len(),
                no == self.outdated.len(),
                sev == finding_severities(self@),
                j <= no,
                worst == worst_of(sev.take(nu + j)),
            decreases no - j,
        {
            let s = self.outdated[j].severity(self.escalate_at_majors);
            assert(sev.take(nu + j + 1).drop_last() =~= sev.take(nu + j));
            assert(self.outdated.deep_view()[j as int] == self.outdated[j as int]@);
            worst = Self::bump_exec(worst, s);
            j = j + 1;
        }
        assert(sev.take(nu + no) =~= sev);
        worst
    }

    fn bump_exec(worst: Option<Severity>, s: Severity) -> (r: Option<Severity>)
        ensures
            r == bump(worst, s),
    {
        match worst {
            None => Some(s),
            Some(prev) => if severity_ord(s) > severity_ord(prev) {
                Some(s)
            } else {
                Some(prev)
            },
        }
    }
}

/// The worst severity exists exactly when there is a finding, is at least as
/// serious as every finding, and is the severity of one of them.
pub proof fn lemma_worst_is_maximum(s: Seq<Severity>)
    ensures
        worst_of(s) is None <==> s.len() == 0,
        worst_of(s) matches Some(w) ==> {
            &&& forall|i: int| 0 <= i < s.len() ==> rank(#[trigger] s[i]) <= rank(w)
            &&& exists|i: int| 0 <= i < s.len() && s[i] == w
        },
    decreases s.len(),
{
    if s.len() > 0 {
        let p = s.drop_last();
        lemma_worst_is_maximum(p);
        let w = worst_of(s)->0;
        assert forall|i: int| 0 <= i < s.len() implies rank(#[trigger] s[i]) <= rank(w) by {
            if i < s.len() - 1 {
                assert(s[i] == p[i]);
            }
        }
        if w == s.last() {
            assert(s[s.len() - 1] == w);
        } else {
            let k = choose|k: int| 0 <= k < p.len() && p[k] == w;
            assert(s[k] == w);
        }
    }
}

} // verus!
