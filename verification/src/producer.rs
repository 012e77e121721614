//! The producer adapter: a `DepCheck` whose outcome always becomes a report.
use vstd::prelude::*;
use dev_report::Report;
use crate::check::{DepCheck, DepCheckView};
use crate::error::{spec_message, DepError};
use crate::report::{
    failure_check, failure_report, finished_header, planned_checks, report_checks, report_header,
};
use crate::result::DepResult;

verus! {

/// Runs a [`DepCheck`] and turns its outcome into a report; a check that
/// could not run becomes a single failing check rather than a panic.
pub struct DepProducer {
    check: DepCheck,
}

impl View for DepProducer {
    type V = DepCheckView;

    closed spec fn view(&self) -> DepCheckView {
        self.check@
    }
}

impl DepProducer {
    /// Build a producer that drives the given [`DepCheck`].
    pub fn new(check: DepCheck) -> (p: Self)
        ensures
            p@ == check@,
    {
        DepProducer { check }
    }

    /// The check this producer drives.
    pub fn check(&self) -> (c: &DepCheck)
        ensures
            c@ == self@,
    {
        &self.check
    }

    /// The report for an outcome of the check: the result's own report, or
    /// for an error, a report of the check's subject holding one failing,
    /// `Critical` check `deps::health` with the error's message, tagged
    /// `deps` and `subprocess`.
    pub fn report_for(&self, outcome: Result<DepResult, DepError>) -> (r: Report)
        ensures
            match outcome {
                Ok(res) => {
                    &&& report_header(r) == finished_header(res@.name, res@.version)
                    &&& report_checks(r) == planned_checks(res@)
                },
                Err(e) => {
                    &&& report_header(r) == finished_header(self@.name, self@.version)
                    &&& report_checks(r) == seq![failure_check(spec_message(&e))]
                },
            },
    {
        match outcome {
            Ok(result) => result.into_report(),
            Err(e) => failure_report(self.check.subject(), self.check.subject_version(), &e),
        }
    }
}

} // verus!
