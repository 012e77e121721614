//! What `cargo +nightly udeps --output json` reports, read into findings.
use vstd::prelude::*;
use vstd::string::*;
use crate::error::{DepError, DepErrorView};
use crate::findings::{UnusedDep, UnusedDepView};
use crate::kinds::DepKind;
use crate::text::{debug_quote, debug_quoted, first_200, is_blank, is_blank_spec, spec_first_200};

verus! {

/// The unused dependencies of one package, by section, as decoded from
/// the JSON (a missing section reads as empty).
#[derive(Debug, Clone)]
pub struct UnusedKinds {
    /// Names unused in `[dependencies]`.
    pub normal: Vec<String>,
    /// Names unused in `[dev-dependencies]`.
    pub development: Vec<String>,
    /// Names unused in `[build-dependencies]`.
    pub build: Vec<String>,
}

/// The content of a package's decoded sections.
pub struct UnusedKindsView {
    pub normal: Seq<Seq<char>>,
    pub development: Seq<Seq<char>>,
    pub build: Seq<Seq<char>>,
}

impl View for UnusedKinds {
    type V = UnusedKindsView;

    open spec fn view(&self) -> UnusedKindsView {
        UnusedKindsView {
            normal: self.normal.deep_view(),
            development: self.development.deep_view(),
            build: self.build.deep_view(),
        }
    }
}

impl DeepView for UnusedKinds {
    type V = UnusedKindsView;

    open spec fn deep_view(&self) -> UnusedKindsView {
        self@
    }
}

/// The names of one section as findings of the given kind.
pub open spec fn section_findings(names: Seq<Seq<char>>, kind: DepKind) -> Seq<UnusedDepView> {
    Seq::new(names.len(), |i: int| UnusedDepView { crate_name: names[i], kind })
}

/// The findings of one package: its normal, then development, then build names.
pub open spec fn package_findings(k: UnusedKindsView) -> Seq<UnusedDepView> {
    section_findings(k.normal, DepKind::Normal) + section_findings(
        k.development,
        DepKind::Development,
    ) + section_findings(k.build, DepKind::Build)
}

/// The findings of all packages, in order; a package whose entry could not
/// be decoded gives none.
pub open spec fn packages_findings(ps: Seq<Option<UnusedKindsView>>) -> Seq<UnusedDepView>
    decreases ps.len(),
{
    if ps.len() == 0 {
        Seq::empty()
    } else {
        packages_findings(ps.drop_last()) + match ps.last() {
            Some(k) => package_findings(k),
            None => Seq::empty(),
        }
    }
}

/// What reading `cargo udeps` output gives: nothing for blank output; for
/// a decoding failure, its message with an excerpt of the output; otherwise
/// the findings of all packages.
pub open spec fn spec_parse(
    json: Seq<char>,
    packages: Seq<Option<UnusedKindsView>>,
    failure: Option<Seq<char>>,
) -> Result<Seq<UnusedDepView>, Seq<char>> {
    if is_blank_spec(json) {
        Ok(Seq::empty())
    } else if failure is Some {
        Err(failure->0 + "; first 200 chars: "@ + debug_quoted(spec_first_200(json)))
    } else {
        Ok(packages_findings(packages))
    }
}

fn push_section(findings: &mut Vec<UnusedDep>, names: &Vec<String>, kind: DepKind)
    ensures
        final(findings).deep_view() == old(findings).deep_view() + section_findings(
            names.deep_view(),
            kind,
        ),
{
    let ghost start = findings.deep_view();
    let n = names.len();
    let mut i: usize = 0;
    assert(findings.deep_view() =~= start + section_findings(names.deep_view().take(0), kind));
    while i < n
        invariant
            n == names.len(),
            i <= n,
            findings.deep_view() == start + section_findings(names.deep_view().take(i as int), kind),
        decreases n - i,
    {
        let ghost before = findings.deep_view();
        findings.push(UnusedDep { crate_name: names[i].clone(), kind });
        assert(findings.deep_view() =~= before.push(UnusedDepView { crate_name: names[i as int]@, kind }));
        assert(section_findings(names.deep_view().take(i + 1), kind) =~= section_findings(
            names.deep_view().take(i as int),
            kind,
        ).push(UnusedDepView { crate_name: names[i as int]@, kind }));
        assert(findings.deep_view() =~= start + section_findings(
            names.deep_view().take(i + 1),
            kind,
        ));
        i = i + 1;
    }
    assert(names.deep_view().take(n as int) =~= names.deep_view());
}

/// Read the findings out of `cargo udeps` output. `packages` are the
/// entries of its `unused_deps` object, in key order (`None` for one that
/// could not be decoded, none at all when the object is missing);
/// `failure` is the decoder's message when the output is not a report.
pub fn parse(json: &str, packages: Vec<Option<UnusedKinds>>, failure: Option<String>) -> (r: Result<
    Vec<UnusedDep>,
    DepError,
>)
    ensures
        !is_blank_spec(json@) && failure is Some ==> r matches Err(DepError::ParseError(_)),
        match r {
            Ok(v) => spec_parse(
                json@,
                packages.deep_view(),
                match failure {
                    Some(f) => Some(f@),
                    None => None,
                },
            ) == Ok::<Seq<UnusedDepView>, Seq<char>>(v.deep_view()),
            Err(DepError::ParseError(m)) => spec_parse(
                json@,
                packages.deep_view(),
                match failure {
                    Some(f) => Some(f@),
                    None => None,
                },
            ) == Err::<Seq<UnusedDepView>, Seq<char>>(m@),
            Err(_) => false,
        },
{
    if is_blank(json) {
        let v: Vec<UnusedDep> = Vec::new();
        assert(v.deep_view() =~= Seq::<UnusedDepView>::empty());
        return Ok(v);
    }
    if let Some(e) = failure {
        let mut m = e;
        m.append("; first 200 chars: ");
        let q = debug_quote(first_200(json));
        m.append(q.as_str());
        return Err(DepError::ParseError(m));
    }
    let mut findings: Vec<UnusedDep> = Vec::new();
    let n = packages.len();
    let mut i: usize = 0;
    assert(findings.deep_view() =~= packages_findings(packages.deep_view().take(0)));
    while i < n
        invariant
            n == packages.len(),
            i <= n,
            findings.deep_view() == packages_findings(packages.deep_view().take(i as int)),
        decreases n - i,
    {
        let ghost before = findings.deep_view();
        let ghost t = packages.deep_view().take(i + 1);
        assert(t.drop_last() =~= packages.deep_view().take(i as int));
        assert(t.last() == packages[i as int].deep_view());
        match &packages[i] {
            Some(k) => {
                push_section(&mut findings, &k.normal, DepKind::Normal);
                push_section(&mut findings, &k.development, DepKind::Development);
                push_section(&mut findings, &k.build, DepKind::Build);
                assert(findings.deep_view() =~= before + package_findings(k@));
            },
            None => {
                assert(findings.deep_view() =~= before + Seq::<UnusedDepView>::empty());
            },
        }
        i = i + 1;
    }
    assert(packages.deep_view().take(n as int) =~= packages.deep_view());
    Ok(findings)
}

/// What a finished `cargo udeps` run gives: a subprocess failure (with its
/// stderr) when stdout is blank and the tool reported failure; what
/// [`spec_parse`] reads from stdout otherwise.
pub open spec fn spec_interpret(
    stdout: Seq<char>,
    success: bool,
    stderr: Seq<char>,
    packages: Seq<Option<UnusedKindsView>>,
    failure: Option<Seq<char>>,
) -> Result<Seq<UnusedDepView>, DepErrorView> {
    if is_blank_spec(stdout) && !success {
        Err(DepErrorView::SubprocessFailed(stderr))
    } else {
        match spec_parse(stdout, packages, failure) {
            Ok(v) => Ok(v),
            Err(m) => Err(DepErrorView::ParseError(m)),
        }
    }
}

/// Turn the output of a finished `cargo udeps` run into findings. The tool
/// exits non-zero when it finds unused dependencies, so stdout is read
/// whatever the exit status, unless it is blank.
pub fn interpret_output(
    stdout: &str,
    success: bool,
    stderr: String,
    packages: Vec<Option<UnusedKinds>>,
    failure: Option<String>,
) -> (r: Result<Vec<UnusedDep>, DepError>)
    ensures
        !is_blank_spec(stdout@) && failure is Some ==> r matches Err(DepError::ParseError(_)),
        spec_interpret(
            stdout@,
            success,
            stderr@,
            packages.deep_view(),
            match failure {
                Some(f) => Some(f@),
                None => None,
            },
        ) == match r {
            Ok(v) => Ok(v.deep_view()),
            Err(e) => Err(e@),
        },
{
    if is_blank(stdout) && !success {
        return Err(DepError::SubprocessFailed(stderr));
    }
    parse(stdout, packages, failure)
}

/// The arguments passed to `cargo`: `+nightly udeps --output json`, then
/// `--workspace` for a workspace.
pub open spec fn spec_command_args(workspace: bool) -> Seq<Seq<char>> {
    seq!["+nightly"@, "udeps"@, "--output"@, "json"@] + if workspace {
        seq!["--workspace"@]
    } else {
        Seq::empty()
    }
}

/// The arguments passed to `cargo` to run `cargo udeps`.
pub fn command_args(workspace: bool) -> (a: Vec<String>)
    ensures
        a.deep_view() == spec_command_args(workspace),
{
    let mut a: Vec<String> = Vec::new();
    a.push("+nightly".to_owned());
    a.push("udeps".to_owned());
    a.push("--output".to_owned());
    a.push("json".to_owned());
    if workspace {
        a.push("--workspace".to_owned());
    }
    assert(a.deep_view() =~= spec_command_args(workspace));
    a
}

} // verus!
