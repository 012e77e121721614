//! Turning a result into a `dev_report::Report`: which checks it holds,
//! and with what verdicts, severities, details, tags and evidence.
//!
//! A report is built with the calls of the `dev_report` crate. What those
//! calls put into a report is described by the models below.
use vstd::prelude::*;
use vstd::string::*;
use dev_report::{CheckResult, Evidence, Report};
use crate::error::{spec_message, DepError};
use crate::findings::{outdated_severity, OutdatedDep, OutdatedDepView, UnusedDep, UnusedDepView};
use crate::kinds::{scope_label, spec_scope_label};
use crate::result::{DepResult, DepResultView};
use crate::severity::{Severity, Verdict};
use crate::text::{decimal, decimal_string};

verus! {

#[verifier::external_type_specification]
#[verifier::external_body]
pub struct ExReport(Report);

#[verifier::external_type_specification]
#[verifier::external_body]
pub struct ExCheckResult(CheckResult);

#[verifier::external_type_specification]
#[verifier::external_body]
pub struct ExEvidence(Evidence);

/// A piece of evidence as it stands in a report.
pub enum EvidenceModel {
    /// A labelled number.
    Numeric { label: Seq<char>, value: int },
    /// Labelled key-value pairs.
    KeyValue { label: Seq<char>, pairs: Map<Seq<char>, Seq<char>> },
}

/// A check as it stands in a report (its time stamps left out).
pub struct CheckModel {
    pub name: Seq<char>,
    pub verdict: Verdict,
    pub severity: Option<Severity>,
    pub detail: Option<Seq<char>>,
    pub tags: Seq<Seq<char>>,
    pub evidence: Seq<EvidenceModel>,
}

/// The subject, producer and completion of a report (its time stamps left out).
pub struct ReportHeader {
    pub subject: Seq<char>,
    pub subject_version: Seq<char>,
    pub producer: Option<Seq<char>>,
    pub finished: bool,
}

/// The checks a report holds, in order.
pub uninterp spec fn report_checks(r: Report) -> Seq<CheckModel>;

/// The subject, producer and completion of a report.
pub uninterp spec fn report_header(r: Report) -> ReportHeader;

/// The content of a check result.
pub uninterp spec fn check_model(c: CheckResult) -> CheckModel;

/// The content of a piece of evidence.
pub uninterp spec fn evidence_model(e: Evidence) -> EvidenceModel;

/// The map that key-value pairs build, a later pair overriding an earlier one.
pub open spec fn pairs_map(pairs: Seq<(Seq<char>, Seq<char>)>) -> Map<Seq<char>, Seq<char>>
    decreases pairs.len(),
{
    if pairs.len() == 0 {
        Map::empty()
    } else {
        pairs_map(pairs.drop_last()).insert(pairs.last().0, pairs.last().1)
    }
}

/// `Report::new`: a report of the given subject with no producer, no
/// checks, and not yet finished.
#[verifier::external_body]
fn new_report(subject: &str, version: &str) -> (r: Report)
    ensures
        report_header(r) == (ReportHeader {
            subject: subject@,
            subject_version: version@,
            producer: None,
            finished: false,
        }),
        report_checks(r) == Seq::<CheckModel>::empty(),
{
    Report::new(subject, version)
}

/// `Report::with_producer`: sets the producer, changes nothing else.
#[verifier::external_body]
fn report_with_producer(r: Report, producer: &str) -> (out: Report)
    ensures
        report_header(out) == (ReportHeader { producer: Some(producer@), ..report_header(r) }),
        report_checks(out) == report_checks(r),
{
    r.with_producer(producer)
}

/// `Report::push`: appends the check, changes nothing else.
#[verifier::external_body]
fn report_push(r: &mut Report, c: CheckResult)
    ensures
        report_checks(*final(r)) == report_checks(*old(r)).push(check_model(c)),
        report_header(*final(r)) == report_header(*old(r)),
{
    r.push(c)
}

/// `Report::finish`: stamps the finish time, changes nothing else.
#[verifier::external_body]
fn report_finish(r: &mut Report)
    ensures
        report_checks(*final(r)) == report_checks(*old(r)),
        report_header(*final(r)) == (ReportHeader { finished: true, ..report_header(*old(r)) }),
{
    r.finish()
}

/// `CheckResult::pass`: a passing check with the given name, no severity,
/// detail, tags or evidence.
#[verifier::external_body]
fn check_pass(name: String) -> (c: CheckResult)
    ensures
        check_model(c) == (CheckModel {
            name: name@,
            verdict: Verdict::Pass,
            severity: None,
            detail: None,
            tags: Seq::empty(),
            evidence: Seq::empty(),
        }),
{
    CheckResult::pass(name)
}

/// `CheckResult::warn`: a warning check with the given name and severity,
/// no detail, tags or evidence.
#[verifier::external_body]
fn check_warn(name: String, severity: Severity) -> (c: CheckResult)
    ensures
        check_model(c) == (CheckModel {
            name: name@,
            verdict: Verdict::Warn,
            severity: Some(severity),
            detail: None,
            tags: Seq::empty(),
            evidence: Seq::empty(),
        }),
{
    let s = match severity {
        Severity::Info => dev_report::Severity::Info,
        Severity::Warning => dev_report::Severity::Warning,
        Severity::Error => dev_report::Severity::Error,
        Severity::Critical => dev_report::Severity::Critical,
    };
    CheckResult::warn(name, s)
}

/// `CheckResult::fail`: a failing check with the given name and severity,
/// no detail, tags or evidence.
#[verifier::external_body]
fn check_fail(name: String, severity: Severity) -> (c: CheckResult)
    ensures
        check_model(c) == (CheckModel {
            name: name@,
            verdict: Verdict::Fail,
            severity: Some(severity),
            detail: None,
            tags: Seq::empty(),
            evidence: Seq::empty(),
        }),
{
    let s = match severity {
        Severity::Info => dev_report::Severity::Info,
        Severity::Warning => dev_report::Severity::Warning,
        Severity::Error => dev_report::Severity::Error,
        Severity::Critical => dev_report::Severity::Critical,
    };
    CheckResult::fail(name, s)
}

/// `CheckResult::with_detail`: sets the detail, changes nothing else.
#[verifier::external_body]
fn check_with_detail(c: CheckResult, detail: String) -> (out: CheckResult)
    ensures
        check_model(out) == (CheckModel { detail: Some(detail@), ..check_model(c) }),
{
    c.with_detail(detail)
}

/// `CheckResult::with_tag`: appends the tag, changes nothing else.
#[verifier::external_body]
fn check_with_tag(c: CheckResult, tag: &str) -> (out: CheckResult)
    ensures
        check_model(out) == (CheckModel { tags: check_model(c).tags.push(tag@), ..check_model(c) }),
{
    c.with_tag(tag)
}

/// `CheckResult::with_evidence`: appends the evidence, changes nothing else.
#[verifier::external_body]
fn check_with_evidence(c: CheckResult, e: Evidence) -> (out: CheckResult)
    ensures
        check_model(out) == (CheckModel {
            evidence: check_model(c).evidence.push(evidence_model(e)),
            ..check_model(c)
        }),
{
    c.with_evidence(e)
}

/// `Evidence::kv`: key-value evidence holding the given pairs. The pairs
/// must have distinct keys; which of two equal keys would win is left unsaid.
#[verifier::external_body]
fn evidence_kv(label: &str, pairs: Vec<(String, String)>) -> (e: Evidence)
    requires
        forall|i: int, j: int|
            0 <= i < j < pairs.len() ==> pairs.deep_view()[i].0 != pairs.deep_view()[j].0,
    ensures
        evidence_model(e) == (EvidenceModel::KeyValue {
            label: label@,
            pairs: pairs_map(pairs.deep_view()),
        }),
{
    Evidence::kv(label, pairs)
}

/// `Evidence::numeric_int`: numeric evidence. The number is stored as an
/// `f64`, which holds it exactly within ±2^53, so larger values are left out.
#[verifier::external_body]
fn evidence_numeric_int(label: &str, value: i64) -> (e: Evidence)
    requires
        -9007199254740992 <= value <= 9007199254740992,
    ensures
        evidence_model(e) == (EvidenceModel::Numeric { label: label@, value: value as int }),
{
    Evidence::numeric_int(label, value)
}

/// The single passing check of a result without findings.
pub open spec fn health_check(scope: crate::kinds::DepScope) -> CheckModel {
    CheckModel {
        name: "deps::health"@,
        verdict: Verdict::Pass,
        severity: None,
        detail: Some(spec_scope_label(scope) + " scope: no findings"@),
        tags: seq!["deps"@],
        evidence: Seq::empty(),
    }
}

/// The check of an unused finding: a `Warning` warning named after the
/// crate, with its kind as detail and as evidence.
pub open spec fn unused_check(u: UnusedDepView) -> CheckModel {
    CheckModel {
        name: "deps::unused::"@ + u.crate_name,
        verdict: Verdict::Warn,
        severity: Some(Severity::Warning),
        detail: Some("unused in "@ + u.kind.spec_as_str()),
        tags: seq!["deps"@, "unused"@],
        evidence: seq![
            EvidenceModel::KeyValue {
                label: "finding"@,
                pairs: pairs_map(seq![("crate"@, u.crate_name), ("kind"@, u.kind.spec_as_str())]),
            },
        ],
    }
}

/// The key-value evidence of an outdated finding: crate, current and latest
/// version, and the kind when it is known.
pub open spec fn outdated_pairs(o: OutdatedDepView) -> Seq<(Seq<char>, Seq<char>)> {
    let base = seq![("crate"@, o.crate_name), ("current"@, o.current), ("latest"@, o.latest)];
    match o.kind {
        Some(k) => base.push(("kind"@, k.spec_as_str())),
        None => base,
    }
}

/// The check of an outdated finding: a failure when its severity is
/// `Error` (escalated), a warning otherwise; the versions and the lag as
/// detail; the lag and the versions as evidence.
pub open spec fn outdated_check(o: OutdatedDepView, escalate_at: Option<u32>) -> CheckModel {
    let sev = outdated_severity(o.major_behind, escalate_at);
    CheckModel {
        name: "deps::outdated::"@ + o.crate_name,
        verdict: if sev == Severity::Error {
            Verdict::Fail
        } else {
            Verdict::Warn
        },
        severity: Some(sev),
        detail: Some(
            o.current + " -> "@ + o.latest + " ("@ + decimal(o.major_behind as nat)
                + " major behind)"@,
        ),
        tags: seq!["deps"@, "outdated"@],
        evidence: seq![
            EvidenceModel::Numeric { label: "major_behind"@, value: o.major_behind as int },
            EvidenceModel::KeyValue { label: "finding"@, pairs: pairs_map(outdated_pairs(o)) },
        ],
    }
}

/// The checks of a result's report: the health check when there are no
/// findings; otherwise one check per unused finding, then one per outdated
/// finding, in order.
pub open spec fn planned_checks(r: DepResultView) -> Seq<CheckModel> {
    if r.unused.len() == 0 && r.outdated.len() == 0 {
        seq![health_check(r.scope)]
    } else {
        Seq::new(r.unused.len(), |i: int| unused_check(r.unused[i])) + Seq::new(
            r.outdated.len(),
            |i: int| outdated_check(r.outdated[i], r.escalate_at_majors),
        )
    }
}

/// The header of every finished report this crate produces for a subject.
pub open spec fn finished_header(subject: Seq<char>, version: Seq<char>) -> ReportHeader {
    ReportHeader {
        subject,
        subject_version: version,
        producer: Some("dev-deps"@),
        finished: true,
    }
}

fn unused_check_result(u: &UnusedDep) -> (c: CheckResult)
    ensures
        check_model(c) == unused_check(u@),
{
    proof {
        reveal_strlit("crate");
        reveal_strlit("kind");
    }
    let mut name = "deps::unused::".to_owned();
    name.append(u.crate_name.as_str());
    let mut detail = "unused in ".to_owned();
    detail.append(u.kind.as_str());
    let pairs: Vec<(String, String)> = vec![
        ("crate".to_owned(), u.crate_name.clone()),
        ("kind".to_owned(), u.kind.as_str().to_owned()),
    ];
    assert(pairs.deep_view() =~= seq![("crate"@, u@.crate_name), ("kind"@, u.kind.spec_as_str())]);
    assert("crate"@.len() == 5 && "kind"@.len() == 4);
    assert(pairs.deep_view()[0].0 != pairs.deep_view()[1].0);
    let check = check_warn(name, u.severity());
    let check = check_with_detail(check, detail);
    let check = check_with_tag(check, "deps");
    let check = check_with_tag(check, "unused");
    let check = check_with_evidence(check, evidence_kv("finding", pairs));
    assert(check_model(check).tags =~= seq!["deps"@, "unused"@]);
    assert(check_model(check).evidence =~= unused_check(u@).evidence);
    check
}

fn outdated_check_result(o: &OutdatedDep, escalate_at: Option<u32>) -> (c: CheckResult)
    ensures
        check_model(c) == outdated_check(o@, escalate_at),
{
    proof {
        reveal_strlit("crate");
        reveal_strlit("current");
        reveal_strlit("latest");
        reveal_strlit("kind");
    }
    let sev = o.severity(escalate_at);
    let mut name = "deps::outdated::".to_owned();
    name.append(o.crate_name.as_str());
    let start = if sev == Severity::Error {
        check_fail(name, sev)
    } else {
        check_warn(name, sev)
    };
    let mut detail = o.current.clone();
    detail.append(" -> ");
    detail.append(o.latest.as_str());
    detail.append(" (");
    let lag = decimal_string(o.major_behind);
    detail.append(lag.as_str());
    detail.append(" major behind)");
    let check = check_with_detail(start, detail);
    let check = check_with_tag(check, "deps");
    let check = check_with_tag(check, "outdated");
    let check = check_with_evidence(
        check,
        evidence_numeric_int("major_behind", o.major_behind as i64),
    );
    let mut pairs: Vec<(String, String)> = vec![
        ("crate".to_owned(), o.crate_name.clone()),
        ("current".to_owned(), o.current.clone()),
        ("latest".to_owned(), o.latest.clone()),
    ];
    if let Some(k) = o.kind {
        pairs.push(("kind".to_owned(), k.as_str().to_owned()));
    }
    assert(pairs.deep_view() =~= outdated_pairs(o@));
    assert("crate"@.len() == 5 && "current"@.len() == 7 && "latest"@.len() == 6 && "kind"@.len()
        == 4);
    assert forall|i: int, j: int|
        0 <= i < j < pairs.len() implies pairs.deep_view()[i].0 != pairs.deep_view()[j].0 by {
        assert(pairs.deep_view()[i].0.len() != pairs.deep_view()[j].0.len());
    }
    let check = check_with_evidence(check, evidence_kv("finding", pairs));
    assert(check_model(check).tags =~= seq!["deps"@, "outdated"@]);
    assert(check_model(check).evidence =~= outdated_check(o@, escalate_at).evidence);
    check
}

impl DepResult {
    /// Convert this result into a `dev_report::Report`, produced by
    /// `dev-deps` and finished.
    ///
    /// No findings: one passing check `deps::health`. Otherwise one check
    /// per finding, named `deps::unused::<crate>` or
    /// `deps::outdated::<crate>`, tagged `deps` plus `unused` or
    /// `outdated`; outdated findings carry their lag as numeric evidence,
    /// and fail once escalated to `Error`.
    pub fn into_report(self) -> (r: Report)
        ensures
            report_header(r) == finished_header(self@.name, self@.version),
            report_checks(r) == planned_checks(self@),
    {
        let report = new_report(self.name.as_str(), self.version.as_str());
        let mut report = report_with_producer(report, "dev-deps");
        let nu = self.unused.len();
        let no = self.outdated.len();
        if nu == 0 && no == 0 {
            let mut detail = scope_label(self.scope).to_owned();
            detail.append(" scope: no findings");
            let check = check_with_tag(check_pass("deps::health".to_owned()), "deps");
            let check = check_with_detail(check, detail);
            report_push(&mut report, check);
            assert(report_checks(report) =~= planned_checks(self@));
        } else {
            let mut i: usize = 0;
            while i < nu
                invariant
                    nu == self.unused.len(),
                    i <= nu,
                    report_header(report) == (ReportHeader {
                        subject: self@.name,
                        subject_version: self@.version,
                        producer: Some("dev-deps"@),
                        finished: false,
                    }),
                    report_checks(report) == Seq::new(
                        i as nat,
                        |j: int| unused_check(self@.unused[j]),
                    ),
                decreases nu - i,
            {
                let check = unused_check_result(&self.unused[i]);
                report_push(&mut report, check);
                assert(report_checks(report) =~= Seq::new(
                    (i + 1) as nat,
                    |j: int| unused_check(self@.unused[j]),
                ));
                i = i + 1;
            }
            let mut j: usize = 0;
            while j < no
                invariant
                    nu == self.unused.len(),
                    no == self.outdated.len(),
                    j <= no,
                    report_header(report) == (ReportHeader {
                        subject: self@.name,
                        subject_version: self@.version,
                        producer: Some("dev-deps"@),
                        finished: false,
                    }),
                    report_checks(report) == Seq::new(
                        nu as nat,
                        |k: int| unused_check(self@.unused[k]),
                    ) + Seq::new(
                        j as nat,
                        |k: int| outdated_check(self@.outdated[k], self@.escalate_at_majors),
                    ),
                decreases no - j,
            {
                let check = outdated_check_result(&self.outdated[j], self.escalate_at_majors);
                report_push(&mut report, check);
                assert(report_checks(report) =~= Seq::new(
                    nu as nat,
                    |k: int| unused_check(self@.unused[k]),
                ) + Seq::new(
                    (j + 1) as nat,
                    |k: int| outdated_check(self@.outdated[k], self@.escalate_at_majors),
                ));
                j = j + 1;
            }
            assert(report_checks(report) =~= planned_checks(self@));
        }
        report_finish(&mut report);
        report
    }
}

/// The single failing check that reports a check which could not run.
pub open spec fn failure_check(message: Seq<char>) -> CheckModel {
    CheckModel {
        name: "deps::health"@,
        verdict: Verdict::Fail,
        severity: Some(Severity::Critical),
        detail: Some(message),
        tags: seq!["deps"@, "subprocess"@],
        evidence: Seq::empty(),
    }
}

/// The report of a check that could not run: one failing, `Critical`
/// check `deps::health` carrying the error's message, tagged `deps` and
/// `subprocess`.
pub fn failure_report(subject: &str, version: &str, error: &DepError) -> (r: Report)
    ensures
        report_header(r) == finished_header(subject@, version@),
        report_checks(r) == seq![failure_check(spec_message(error))],
{
    let report = new_report(subject, version);
    let mut report = report_with_producer(report, "dev-deps");
    let check = check_fail("deps::health".to_owned(), Severity::Critical);
    let check = check_with_detail(check, error.message());
    let check = check_with_tag(check, "deps");
    let check = check_with_tag(check, "subprocess");
    assert(check_model(check).tags =~= seq!["deps"@, "subprocess"@]);
    report_push(&mut report, check);
    assert(report_checks(report) =~= seq![failure_check(spec_message(error))]);
    report_finish(&mut report);
    report
}

} // verus!
