//! What `cargo outdated --format json` reports, read into findings: the
//! entry filter, the dependency-kind labels and the major-version lag.
use vstd::prelude::*;
use vstd::string::*;
use crate::error::{DepError, DepErrorView};
use crate::findings::{OutdatedDep, OutdatedDepView};
use crate::kinds::DepKind;
use crate::text::{debug_quote, debug_quoted, first_200, is_blank, is_blank_spec, spec_first_200, trim, trim_spec};

verus! {

/// `s`, with ASCII upper-case letters lowered, is exactly `target`
/// (`s.to_ascii_lowercase() == target`), compared by code point.
pub open spec fn lowercases_to(s: Seq<char>, target: Seq<char>) -> bool {
    &&& s.len() == target.len()
    &&& forall|i: int| 0 <= i < s.len() ==> lower_code(#[trigger] s[i]) == target[i] as u32
}

/// Code point of a character after ASCII lower-casing.
pub open spec fn lower_code(c: char) -> u32 {
    if 65 <= (c as u32) <= 90 {
        (c as u32 + 32) as u32
    } else {
        c as u32
    }
}

fn lowercase_eq(s: &str, target: &str) -> (r: bool)
    ensures
        r == lowercases_to(s@, target@),
{
    let n = s.unicode_len();
    let m = target.unicode_len();
    if n != m {
        return false;
    }
    let mut i: usize = 0;
    while i < n
        invariant
            n == s@.len(),
            m == target@.len(),
            n == m,
            i <= n,
            forall|j: int| 0 <= j < i ==> lower_code(#[trigger] s@[j]) == target@[j] as u32,
        decreases n - i,
    {
        let c = s.get_char(i) as u32;
        let t = target.get_char(i) as u32;
        let lc = if 65 <= c && c <= 90 {
            c + 32
        } else {
            c
        };
        if lc != t {
            return false;
        }
        i = i + 1;
    }
    true
}

/// The kind named by a `cargo outdated` label, ignoring ASCII case:
/// `normal`; `development` or `dev`; `build`. Anything else names no kind.
pub open spec fn spec_kind_from_label(label: Option<Seq<char>>) -> Option<DepKind> {
    match label {
        None => None,
        Some(l) => if lowercases_to(l, "normal"@) {
            Some(DepKind::Normal)
        } else if lowercases_to(l, "development"@) || lowercases_to(l, "dev"@) {
            Some(DepKind::Development)
        } else if lowercases_to(l, "build"@) {
            Some(DepKind::Build)
        } else {
            None
        },
    }
}

/// The kind named by a `cargo outdated` label, ignoring ASCII case.
pub fn dep_kind_from_label(label: Option<&str>) -> (k: Option<DepKind>)
    ensures
        k == spec_kind_from_label(
            match label {
                Some(l) => Some(l@),
                None => None,
            },
        ),
{
    match label {
        None => None,
        Some(l) => if lowercase_eq(l, "normal") {
            Some(DepKind::Normal)
        } else if lowercase_eq(l, "development") || lowercase_eq(l, "dev") {
            Some(DepKind::Development)
        } else if lowercase_eq(l, "build") {
            Some(DepKind::Build)
        } else {
            None
        },
    }
}

/// An ASCII decimal digit.
pub open spec fn is_digit(c: char) -> bool {
    48 <= (c as u32) <= 57
}

/// The text from its first ASCII digit on.
pub open spec fn skip_non_digits(s: Seq<char>) -> Seq<char>
    decreases s.len(),
{
    if s.len() > 0 && !is_digit(s[0]) {
        skip_non_digits(s.drop_first())
    } else {
        s
    }
}

/// The text up to (not including) its first `.`.
pub open spec fn before_dot(s: Seq<char>) -> Seq<char>
    decreases s.len(),
{
    if s.len() == 0 || s[0] == '.' {
        Seq::empty()
    } else {
        seq![s[0]] + before_dot(s.drop_first())
    }
}

/// Every character is an ASCII digit.
pub open spec fn all_digits(s: Seq<char>) -> bool {
    forall|i: int| 0 <= i < s.len() ==> is_digit(#[trigger] s[i])
}

/// The number a string of decimal digits denotes.
pub open spec fn digits_value(s: Seq<char>) -> int
    decreases s.len(),
{
    if s.len() == 0 {
        0
    } else {
        digits_value(s.drop_last()) * 10 + (s.last() as u32 - 48)
    }
}

/// The major component of a version: leading non-digits (such as `^` or
/// `~`) are skipped, the text is cut at the first `.`, and what is left
/// must be a non-empty run of decimal digits that fits in a `u32`.
pub open spec fn spec_major(s: Seq<char>) -> Option<u32> {
    let seg = before_dot(skip_non_digits(s));
    if seg.len() > 0 && all_digits(seg) && digits_value(seg) <= u32::MAX {
        Some(digits_value(seg) as u32)
    } else {
        None
    }
}

/// Difference in the major component, `latest - current`, saturating at 0;
/// 0 as well when either major component cannot be read.
pub open spec fn spec_major_diff(current: Seq<char>, latest: Seq<char>) -> u32 {
    match (spec_major(current), spec_major(latest)) {
        (Some(c), Some(l)) => if l >= c {
            (l - c) as u32
        } else {
            0
        },
        _ => 0,
    }
}

proof fn lemma_digits_value_prefix(s: Seq<char>, k: int)
    requires
        all_digits(s),
        0 <= k <= s.len(),
    ensures
        digits_value(s) >= digits_value(s.take(k)),
        digits_value(s.take(k)) >= 0,
    decreases s.len(),
{
    if s.len() == k {
        assert(s.take(k) =~= s);
        lemma_digits_value_nonneg(s);
    } else {
        let p = s.drop_last();
        assert(all_digits(p)) by {
            assert forall|i: int| 0 <= i < p.len() implies is_digit(#[trigger] p[i]) by {
                assert(p[i] == s[i]);
            }
        }
        lemma_digits_value_prefix(p, k);
        assert(p.take(k) =~= s.take(k));
        lemma_digits_value_nonneg(p);
        assert(is_digit(s[s.len() - 1]));
    }
}

proof fn lemma_digits_value_nonneg(s: Seq<char>)
    requires
        all_digits(s),
    ensures
        digits_value(s) >= 0,
    decreases s.len(),
{
    if s.len() > 0 {
        let p = s.drop_last();
        assert(all_digits(p)) by {
            assert forall|i: int| 0 <= i < p.len() implies is_digit(#[trigger] p[i]) by {
                assert(p[i] == s[i]);
            }
        }
        lemma_digits_value_nonneg(p);
        assert(is_digit(s[s.len() - 1]));
    }
}

/// The major component of a version string (see [`spec_major`]).
pub fn major(s: &str) -> (m: Option<u32>)
    ensures
        m == spec_major(s@),
{
    let n = s.unicode_len();
    let mut i: usize = 0;
    assert(s@.skip(0) =~= s@);
    loop
        invariant
            n == s@.len(),
            i <= n,
            skip_non_digits(s@) == skip_non_digits(s@.skip(i as int)),
        ensures
            i <= n,
            skip_non_digits(s@) == skip_non_digits(s@.skip(i as int)),
            i == n || is_digit(s@[i as int]),
        decreases n - i,
    {
        if i == n {
            break;
        }
        let c = s.get_char(i) as u32;
        if 48 <= c && c <= 57 {
            break;
        }
        assert(s@.skip(i as int).drop_first() =~= s@.skip(i + 1));
        i = i + 1;
    }
    let t = s.substring_char(i, n);
    assert(t@ =~= s@.skip(i as int));
    assert(i < n ==> t@[0] == s@[i as int]);
    assert(skip_non_digits(s@) == t@);
    let ghost seg = before_dot(t@);
    let len = n - i;
    let mut j: usize = 0;
    let mut val: u32 = 0;
    assert(t@.skip(0) =~= t@);
    assert(t@.take(0) + before_dot(t@.skip(0)) =~= seg);
    loop
        invariant
            len == t@.len(),
            seg == before_dot(t@),
            seg == before_dot(skip_non_digits(s@)),
            j <= len,
            seg == t@.take(j as int) + before_dot(t@.skip(j as int)),
            all_digits(t@.take(j as int)),
            val == digits_value(t@.take(j as int)),
        ensures
            j <= len,
            all_digits(t@.take(j as int)),
            val == digits_value(t@.take(j as int)),
            seg == t@.take(j as int),
        decreases len - j,
    {
        if j == len {
            assert(t@.skip(j as int) =~= Seq::<char>::empty());
            assert(seg =~= t@.take(j as int));
            break;
        }
        let c = t.get_char(j);
        let ghost rest = t@.skip(j as int);
        assert(rest[0] == c);
        if c == '.' {
            assert(before_dot(rest) =~= Seq::<char>::empty());
            assert(seg =~= t@.take(j as int));
            break;
        }
        assert(rest.drop_first() =~= t@.skip(j + 1));
        assert(t@.take(j + 1) =~= t@.take(j as int) + seq![c]);
        assert(seg =~= t@.take(j + 1) + before_dot(t@.skip(j + 1)));
        let code = c as u32;
        if !(48 <= code && code <= 57) {
            assert(seg[j as int] == c);
            return None;
        }
        let next: u64 = (val as u64) * 10 + ((code - 48) as u64);
        assert(t@.take(j + 1).drop_last() =~= t@.take(j as int));
        assert(all_digits(t@.take(j + 1)));
        assert(digits_value(t@.take(j + 1)) == next);
        if next > 4294967295u64 {
            proof {
                if all_digits(seg) {
                    assert(seg.take(j + 1) =~= t@.take(j + 1));
                    lemma_digits_value_prefix(seg, j + 1);
                }
            }
            return None;
        }
        val = next as u32;
        j = j + 1;
    }
    if j == 0 {
        return None;
    }
    Some(val)
}

/// Difference in the major version component, saturating at 0 when the
/// strings can't be parsed.
pub fn major_diff(current: &str, latest: &str) -> (d: u32)
    ensures
        d == spec_major_diff(current@, latest@),
        spec_major(current@) is None || spec_major(latest@) is None ==> d == 0,
{
    match (major(current), major(latest)) {
        (Some(c), Some(l)) => if l >= c {
            l - c
        } else {
            0
        },
        _ => 0,
    }
}

/// One dependency row of a `cargo outdated` report, as decoded from its JSON
/// (a missing field reads as empty).
#[derive(Debug, Clone)]
pub struct OutdatedEntry {
    /// The dependency's name.
    pub name: String,
    /// The version the project uses.
    pub project: String,
    /// The latest version on the registry.
    pub latest: String,
    /// The tool's label for the dependency's kind.
    pub kind: Option<String>,
}

/// The content of a decoded row.
pub struct OutdatedEntryView {
    pub name: Seq<char>,
    pub project: Seq<char>,
    pub latest: Seq<char>,
    pub kind: Option<Seq<char>>,
}

impl View for OutdatedEntry {
    type V = OutdatedEntryView;

    open spec fn view(&self) -> OutdatedEntryView {
        OutdatedEntryView {
            name: self.name@,
            project: self.project@,
            latest: self.latest@,
            kind: match self.kind {
                Some(k) => Some(k@),
                None => None,
            },
        }
    }
}

impl DeepView for OutdatedEntry {
    type V = OutdatedEntryView;

    open spec fn deep_view(&self) -> OutdatedEntryView {
        self@
    }
}

/// The finding a row gives: none when a version is missing, when the
/// project is already on the latest version, or when the name is missing
/// or the `---` sentinel.
pub open spec fn entry_finding(e: OutdatedEntryView) -> Option<OutdatedDepView> {
    if e.project.len() == 0 || e.latest.len() == 0 || e.project == e.latest || e.name.len() == 0
        || e.name == "---"@ {
        None
    } else {
        Some(
            OutdatedDepView {
                crate_name: e.name,
                current: e.project,
                latest: e.latest,
                major_behind: spec_major_diff(e.project, e.latest),
                kind: spec_kind_from_label(e.kind),
            },
        )
    }
}

/// The findings of a list of rows, in order.
pub open spec fn findings_of(es: Seq<OutdatedEntryView>) -> Seq<OutdatedDepView>
    decreases es.len(),
{
    if es.len() == 0 {
        Seq::empty()
    } else {
        let before = findings_of(es.drop_last());
        match entry_finding(es.last()) {
            Some(d) => before.push(d),
            None => before,
        }
    }
}

/// The findings of a sequence of reports (one per workspace member), in order.
pub open spec fn findings_of_reports(rs: Seq<Seq<OutdatedEntryView>>) -> Seq<OutdatedDepView>
    decreases rs.len(),
{
    if rs.len() == 0 {
        Seq::empty()
    } else {
        findings_of_reports(rs.drop_last()) + findings_of(rs.last())
    }
}

/// What reading `cargo outdated` output gives: nothing for blank output;
/// for a decoding failure, its message with an excerpt of the output; an
/// error when no report was found; otherwise the findings of all reports.
pub open spec fn spec_parse(
    json: Seq<char>,
    reports: Seq<Seq<OutdatedEntryView>>,
    failure: Option<Seq<char>>,
) -> Result<Seq<OutdatedDepView>, Seq<char>> {
    let trimmed = trim_spec(json);
    if trimmed.len() == 0 {
        Ok(Seq::empty())
    } else if failure is Some {
        Err(failure->0 + "; first 200 chars: "@ + debug_quoted(spec_first_200(trimmed)))
    } else if reports.len() == 0 {
        Err(
            "no JSON objects found in `cargo outdated` output; first 200 chars: "@ + debug_quoted(
                spec_first_200(trimmed),
            ),
        )
    } else {
        Ok(findings_of_reports(reports))
    }
}

fn entry_to_finding(e: &OutdatedEntry) -> (r: Option<OutdatedDep>)
    ensures
        match r {
            Some(d) => entry_finding(e@) == Some(d@),
            None => entry_finding(e@) is None,
        },
{
    let sentinel = "---".to_owned();
    if e.project.as_str().is_empty() || e.latest.as_str().is_empty() || e.project == e.latest
        || e.name.as_str().is_empty() || e.name == sentinel {
        return None;
    }
    let kind_label: Option<&str> = match &e.kind {
        Some(k) => Some(k.as_str()),
        None => None,
    };
    Some(
        OutdatedDep {
            major_behind: major_diff(e.project.as_str(), e.latest.as_str()),
            crate_name: e.name.clone(),
            current: e.project.clone(),
            latest: e.latest.clone(),
            kind: dep_kind_from_label(kind_label),
        },
    )
}

fn push_findings(findings: &mut Vec<OutdatedDep>, entries: &Vec<OutdatedEntry>)
    ensures
        final(findings).deep_view() == old(findings).deep_view() + findings_of(entries.deep_view()),
{
    let ghost start = findings.deep_view();
    let n = entries.len();
    let mut i: usize = 0;
    assert(entries.deep_view().take(0) =~= Seq::<OutdatedEntryView>::empty());
    assert(findings.deep_view() =~= start + findings_of(entries.deep_view().take(0)));
    while i < n
        invariant
            n == entries.len(),
            i <= n,
            findings.deep_view() == start + findings_of(entries.deep_view().take(i as int)),
        decreases n - i,
    {
        let ghost before = findings.deep_view();
        let f = entry_to_finding(&entries[i]);
        assert(entries.deep_view().take(i + 1).drop_last() =~= entries.deep_view().take(i as int));
        assert(entries.deep_view().take(i + 1).last() == entries[i as int]@);
        match f {
            Some(d) => {
                findings.push(d);
                assert(findings.deep_view() =~= before.push(d@));
            },
            None => {},
        }
        i = i + 1;
    }
    assert(entries.deep_view().take(n as int) =~= entries.deep_view());
}

/// Read the findings out of `cargo outdated` output. `reports` are the JSON
/// objects decoded from the trimmed output, in order, up to the first one
/// that could not be decoded; `failure` is the decoder's message for that one.
pub fn parse(json: &str, reports: Vec<Vec<OutdatedEntry>>, failure: Option<String>) -> (r: Result<
    Vec<OutdatedDep>,
    DepError,
>)
    ensures
        trim_spec(json@).len() > 0 && (failure is Some || reports.len() == 0) ==> r matches Err(
            DepError::ParseError(_),
        ),
        match r {
            Ok(v) => spec_parse(
                json@,
                reports.deep_view(),
                match failure {
                    Some(f) => Some(f@),
                    None => None,
                },
            ) == Ok::<Seq<OutdatedDepView>, Seq<char>>(v.deep_view()),
            Err(DepError::ParseError(m)) => spec_parse(
                json@,
                reports.deep_view(),
                match failure {
                    Some(f) => Some(f@),
                    None => None,
                },
            ) == Err::<Seq<OutdatedDepView>, Seq<char>>(m@),
            Err(_) => false,
        },
{
    let trimmed = trim(json);
    if trimmed.unicode_len() == 0 {
        let v: Vec<OutdatedDep> = Vec::new();
        assert(v.deep_view() =~= Seq::<OutdatedDepView>::empty());
        return Ok(v);
    }
    if let Some(e) = failure {
        let mut m = e;
        m.append("; first 200 chars: ");
        let q = debug_quote(first_200(trimmed));
        m.append(q.as_str());
        return Err(DepError::ParseError(m));
    }
    let n = reports.len();
    if n == 0 {
        let mut m = "no JSON objects found in `cargo outdated` output; first 200 chars: ".to_owned();
        let q = debug_quote(first_200(trimmed));
        m.append(q.as_str());
        return Err(DepError::ParseError(m));
    }
    let mut findings: Vec<OutdatedDep> = Vec::new();
    let mut i: usize = 0;
    assert(reports.deep_view().take(0) =~= Seq::<Seq<OutdatedEntryView>>::empty());
    assert(findings.deep_view() =~= findings_of_reports(reports.deep_view().take(0)));
    while i < n
        invariant
            n == reports.len(),
            i <= n,
            findings.deep_view() == findings_of_reports(reports.deep_view().take(i as int)),
        decreases n - i,
    {
        push_findings(&mut findings, &reports[i]);
        assert(reports.deep_view().take(i + 1).drop_last() =~= reports.deep_view().take(i as int));
        assert(reports.deep_view().take(i + 1).last() == reports[i as int].deep_view());
        i = i + 1;
    }
    assert(reports.deep_view().take(n as int) =~= reports.deep_view());
    Ok(findings)
}

/// What a finished `cargo outdated` run gives: a subprocess failure (with
/// its stderr) when stdout is blank and the tool reported failure; what
/// [`spec_parse`] reads from stdout otherwise.
pub open spec fn spec_interpret(
    stdout: Seq<char>,
    success: bool,
    stderr: Seq<char>,
    reports: Seq<Seq<OutdatedEntryView>>,
    failure: Option<Seq<char>>,
) -> Result<Seq<OutdatedDepView>, DepErrorView> {
    if is_blank_spec(stdout) && !success {
        Err(DepErrorView::SubprocessFailed(stderr))
    } else {
        match spec_parse(stdout, reports, failure) {
            Ok(v) => Ok(v),
            Err(m) => Err(DepErrorView::ParseError(m)),
        }
    }
}

/// Turn the output of a finished `cargo outdated` run into findings. Both
/// tools exit non-zero when they find something, so stdout is read whatever
/// the exit status, unless it is blank.
pub fn interpret_output(
    stdout: &str,
    success: bool,
    stderr: String,
    reports: Vec<Vec<OutdatedEntry>>,
    failure: Option<String>,
) -> (r: Result<Vec<OutdatedDep>, DepError>)
    ensures
        !is_blank_spec(stdout@) && (failure is Some || reports.len() == 0) ==> r matches Err(
            DepError::ParseError(_),
        ),
        spec_interpret(
            stdout@,
            success,
            stderr@,
            reports.deep_view(),
            match failure {
                Some(f) => Some(f@),
                None => None,
            },
        ) == match r {
            Ok(v) => Ok(v.deep_view()),
            Err(e) => Err(e@),
        },
{
    if is_blank(stdout) && !success {
        return Err(DepError::SubprocessFailed(stderr));
    }
    match parse(stdout, reports, failure) {
        Ok(v) => Ok(v),
        Err(e) => Err(e),
    }
}

/// `--exclude <name>` for each excluded crate, in order.
pub open spec fn exclude_args(excludes: Seq<Seq<char>>) -> Seq<Seq<char>>
    decreases excludes.len(),
{
    if excludes.len() == 0 {
        Seq::empty()
    } else {
        exclude_args(excludes.drop_last()) + seq!["--exclude"@, excludes.last()]
    }
}

/// The arguments passed to `cargo`: `outdated --format json`, then
/// `--workspace --root-deps-only` for a workspace, then the excludes.
pub open spec fn spec_command_args(workspace: bool, excludes: Seq<Seq<char>>) -> Seq<Seq<char>> {
    seq!["outdated"@, "--format"@, "json"@] + (if workspace {
        seq!["--workspace"@, "--root-deps-only"@]
    } else {
        Seq::empty()
    }) + exclude_args(excludes)
}

/// The arguments passed to `cargo` to run `cargo outdated`.
pub fn command_args(workspace: bool, excludes: &Vec<String>) -> (a: Vec<String>)
    ensures
        a.deep_view() == spec_command_args(workspace, excludes.deep_view()),
{
    let mut a: Vec<String> = Vec::new();
    a.push("outdated".to_owned());
    a.push("--format".to_owned());
    a.push("json".to_owned());
    if workspace {
        a.push("--workspace".to_owned());
        a.push("--root-deps-only".to_owned());
    }
    let ghost head = a.deep_view();
    assert(head =~= seq!["outdated"@, "--format"@, "json"@] + (if workspace {
        seq!["--workspace"@, "--root-deps-only"@]
    } else {
        Seq::empty()
    }));
    let n = excludes.len();
    let mut i: usize = 0;
    assert(excludes.deep_view().take(0) =~= Seq::<Seq<char>>::empty());
    assert(a.deep_view() =~= head + exclude_args(excludes.deep_view().take(0)));
    while i < n
        invariant
            n == excludes.len(),
            i <= n,
            a.deep_view() == head + exclude_args(excludes.deep_view().take(i as int)),
        decreases n - i,
    {
        let ghost before = a.deep_view();
        a.push("--exclude".to_owned());
        a.push(excludes[i].clone());
        let ghost t = excludes.deep_view().take(i + 1);
        assert(t.drop_last() =~= excludes.deep_view().take(i as int));
        assert(t.last() == excludes[i as int]@);
        assert(a.deep_view() =~= before + seq!["--exclude"@, excludes[i as int]@]);
        i = i + 1;
    }
    assert(excludes.deep_view().take(n as int) =~= excludes.deep_view());
    a
}

} // verus!
