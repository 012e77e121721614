//! The order in which a check runs its scanners, and what it does when one
//! of them fails: a step from the last event to the next action.
use vstd::prelude::*;
use crate::check::DepCheck;
use crate::error::DepError;
use crate::kinds::DepScope;

verus! {

/// A scanner the check can run.
#[derive(Debug, Clone, Copy, PartialEq, Eq, Structural)]
pub enum Scanner {
    /// `cargo +nightly udeps`, for unused dependencies.
    Udeps,
    /// `cargo outdated`, for outdated versions.
    Outdated,
}

/// What happened last in a run of the check.
#[derive(Debug)]
pub enum ScanEvent {
    /// Nothing has run yet.
    Started,
    /// The scanner ran and its findings were read.
    Finished(Scanner),
    /// The last scanner could not run, or its output could not be read.
    Failed(DepError),
}

/// What the check does next.
#[derive(Debug)]
pub enum ScanAction {
    /// Run this scanner.
    Run(Scanner),
    /// All scanners of the scope have run: filter, sort and de-duplicate.
    Finalize,
    /// Give up with this error.
    Stop(DepError),
}

/// The next action after an event: the unused-dependency scanner first when
/// the scope includes it, then the outdated-version scanner when the scope
/// includes it, then the findings are finalized; the first failure stops
/// the run with its error.
pub open spec fn spec_next_action(scope: DepScope, event: ScanEvent) -> ScanAction {
    match event {
        ScanEvent::Started => if scope.spec_runs_unused() {
            ScanAction::Run(Scanner::Udeps)
        } else if scope.spec_runs_outdated() {
            ScanAction::Run(Scanner::Outdated)
        } else {
            ScanAction::Finalize
        },
        ScanEvent::Finished(Scanner::Udeps) => if scope.spec_runs_outdated() {
            ScanAction::Run(Scanner::Outdated)
        } else {
            ScanAction::Finalize
        },
        ScanEvent::Finished(Scanner::Outdated) => ScanAction::Finalize,
        ScanEvent::Failed(e) => ScanAction::Stop(e),
    }
}

/// The scanners a run of a scope performs when none fails, in order.
pub open spec fn scan_order(scope: DepScope) -> Seq<Scanner> {
    match scope {
        DepScope::Unused => seq![Scanner::Udeps],
        DepScope::Outdated => seq![Scanner::Outdated],
        DepScope::All => seq![Scanner::Udeps, Scanner::Outdated],
    }
}

impl DepCheck {
    /// The next step of a run of this check, given what happened last.
    pub fn next_action(&self, event: ScanEvent) -> (a: ScanAction)
        ensures
            a == spec_next_action(self@.scope, event),
    {
        match event {
            ScanEvent::Started => if self.dep_scope().runs_unused() {
                ScanAction::Run(Scanner::Udeps)
            } else if self.dep_scope().runs_outdated() {
                ScanAction::Run(Scanner::Outdated)
            } else {
                ScanAction::Finalize
            },
            ScanEvent::Finished(Scanner::Udeps) => if self.dep_scope().runs_outdated() {
                ScanAction::Run(Scanner::Outdated)
            } else {
                ScanAction::Finalize
            },
            ScanEvent::Finished(Scanner::Outdated) => ScanAction::Finalize,
            ScanEvent::Failed(e) => ScanAction::Stop(e),
        }
    }
}

/// A run with no failure performs exactly the scanners of its scope, in
/// `scan_order`, and then finalizes: the first step runs the first scanner,
/// each finished scanner is followed by the next one, and the last by
/// finalizing. A scope without the outdated-version scanner never runs it,
/// one without the unused-dependency scanner never runs that, and any
/// failure stops the run with its error.
pub proof fn lemma_run_follows_scope(scope: DepScope, e: DepError)
    ensures
        spec_next_action(scope, ScanEvent::Started) == ScanAction::Run(scan_order(scope)[0]),
        forall|i: int|
            0 <= i < scan_order(scope).len() ==> spec_next_action(
                scope,
                ScanEvent::Finished(#[trigger] scan_order(scope)[i]),
            ) == if i + 1 < scan_order(scope).len() {
                ScanAction::Run(scan_order(scope)[i + 1])
            } else {
                ScanAction::Finalize
            },
        scan_order(scope).contains(Scanner::Udeps) <==> scope.spec_runs_unused(),
        scan_order(scope).contains(Scanner::Outdated) <==> scope.spec_runs_outdated(),
        !scope.spec_runs_outdated() ==> forall|ev: ScanEvent|
            spec_next_action(scope, ev) != ScanAction::Run(Scanner::Outdated),
        !scope.spec_runs_unused() ==> forall|ev: ScanEvent|
            spec_next_action(scope, ev) != ScanAction::Run(Scanner::Udeps),
        spec_next_action(scope, ScanEvent::Failed(e)) == ScanAction::Stop(e),
{
    let o = scan_order(scope);
    match scope {
        DepScope::Unused => {
            assert(o[0] == Scanner::Udeps);
            assert(!o.contains(Scanner::Outdated));
            assert(o.contains(Scanner::Udeps));
        },
        DepScope::Outdated => {
            assert(o[0] == Scanner::Outdated);
            assert(!o.contains(Scanner::Udeps));
            assert(o.contains(Scanner::Outdated));
        },
        DepScope::All => {
            assert(o[0] == Scanner::Udeps);
            assert(o[1] == Scanner::Outdated);
            assert(o.contains(Scanner::Udeps));
            assert(o.contains(Scanner::Outdated));
        },
    }
}

} // verus!
