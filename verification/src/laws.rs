//! Properties of the library as a whole: what holds of every result, every
//! report and every reading of tool output.
use vstd::prelude::*;
use crate::check::{
    with_allowed, with_each_allowed, canonical_outdated, canonical_unused, first_kept, is_first_kept, lemma_unused_lt_irreflexive,
    lemma_unused_lt_total, meets_threshold, names_sorted,
    outdated_covers_kept, outdated_from_first_kept, outdated_kept, unused_kept, unused_lt, unused_sorted, DepCheckView,
};
use crate::findings::{outdated_severity, OutdatedDepView, UnusedDepView};
use crate::kinds::{kind_rank, spec_scope_label, DepKind};
use crate::error::DepErrorView;
use crate::outdated::{
    all_digits, before_dot, digits_value, findings_of, findings_of_reports, is_digit, skip_non_digits,
    spec_kind_from_label, spec_major, spec_major_diff, OutdatedEntryView,
};
use crate::text::{decimal, digit_char};
use crate::report::EvidenceModel;
use crate::text::is_blank_spec;
use crate::udeps::{package_findings, packages_findings, section_findings, UnusedKindsView};
use crate::report::{planned_checks, outdated_check, unused_check, health_check};
use crate::result::{finding_count, finding_severities, worst_of, lemma_worst_is_maximum, DepResultView};
use crate::severity::{rank, Severity, Verdict};
use crate::text::{lemma_seq_lt_irreflexive, lemma_seq_lt_total, seq_lt};

verus! {

/// Two strictly ascending lists of unused findings with the same elements
/// are the same list.
pub proof fn lemma_unused_sorted_unique(s1: Seq<UnusedDepView>, s2: Seq<UnusedDepView>)
    requires
        unused_sorted(s1),
        unused_sorted(s2),
        forall|x: UnusedDepView| s1.contains(x) <==> s2.contains(x),
    ensures
        s1 == s2,
    decreases s1.len(),
{
    if s1.len() == 0 {
        if s2.len() > 0 {
            assert(s2.contains(s2[0]));
        }
        assert(s1 =~= s2);
    } else {
        assert(s1.contains(s1[0]));
        let j = choose|j: int| 0 <= j < s2.len() && s2[j] == s1[0];
        assert(s2.contains(s2[0]));
        let i = choose|i: int| 0 <= i < s1.len() && s1[i] == s2[0];
        if s1[0] != s2[0] {
            assert(j > 0 && i > 0);
            assert(unused_lt(s2[0], s2[j]));
            assert(unused_lt(s1[0], s1[i]));
            lemma_unused_lt_total(s1[0], s2[0]);
        }
        let t1 = s1.drop_first();
        let t2 = s2.drop_first();
        assert forall|x: UnusedDepView| t1.contains(x) <==> t2.contains(x) by {
            if t1.contains(x) {
                let k = choose|k: int| 0 <= k < t1.len() && t1[k] == x;
                assert(s1[k + 1] == x);
                assert(unused_lt(s1[0], s1[k + 1]));
                lemma_unused_lt_irreflexive(x);
                assert(s2.contains(x));
                let m = choose|m: int| 0 <= m < s2.len() && s2[m] == x;
                assert(m != 0);
                assert(t2[m - 1] == x);
            }
            if t2.contains(x) {
                let k = choose|k: int| 0 <= k < t2.len() && t2[k] == x;
                assert(s2[k + 1] == x);
                assert(unused_lt(s2[0], s2[k + 1]));
                lemma_unused_lt_irreflexive(x);
                assert(s1.contains(x));
                let m = choose|m: int| 0 <= m < s1.len() && s1[m] == x;
                assert(m != 0);
                assert(t1[m - 1] == x);
            }
        }
        assert(unused_sorted(t1)) by {
            assert forall|a: int, b: int| #![trigger t1[a], t1[b]] 0 <= a < b < t1.len() implies unused_lt(t1[a], t1[b]) by {
                assert(t1[a] == s1[a + 1] && t1[b] == s1[b + 1]);
            }
        }
        assert(unused_sorted(t2)) by {
            assert forall|a: int, b: int| #![trigger t2[a], t2[b]] 0 <= a < b < t2.len() implies unused_lt(t2[a], t2[b]) by {
                assert(t2[a] == s2[a + 1] && t2[b] == s2[b + 1]);
            }
        }
        lemma_unused_sorted_unique(t1, t2);
        assert(s1 =~= seq![s1[0]] + t1);
        assert(s2 =~= seq![s2[0]] + t2);
    }
}

/// The unused findings of a result depend only on which raw findings the
/// tool reported, not on their order or repetition: two runs whose raw
/// findings hold the same elements give the same list.
pub proof fn lemma_unused_result_order_independent(
    c: DepCheckView,
    in1: Seq<UnusedDepView>,
    in2: Seq<UnusedDepView>,
    out1: Seq<UnusedDepView>,
    out2: Seq<UnusedDepView>,
)
    requires
        canonical_unused(c, in1, out1),
        canonical_unused(c, in2, out2),
        forall|x: UnusedDepView| in1.contains(x) <==> in2.contains(x),
    ensures
        out1 == out2,
{
    lemma_unused_sorted_unique(out1, out2);
}

/// A crate name has at most one first kept finding.
proof fn lemma_first_kept_unique(c: DepCheckView, input: Seq<OutdatedDepView>, k1: int, k2: int)
    requires
        first_kept(c, input, k1),
        first_kept(c, input, k2),
        input[k1].crate_name == input[k2].crate_name,
    ensures
        k1 == k2,
{
    if k1 < k2 {
        assert(outdated_kept(c, input[k1]));
    } else if k2 < k1 {
        assert(outdated_kept(c, input[k2]));
    }
}

/// The crate names that occur in a list of outdated findings.
pub open spec fn name_set(s: Seq<OutdatedDepView>) -> Set<Seq<char>> {
    Set::new(|n: Seq<char>| exists|i: int| 0 <= i < s.len() && s[i].crate_name == n)
}

/// Findings of the same name in `s1` and `s2` are the same finding.
#[verifier::opaque]
spec fn agree_by_name(s1: Seq<OutdatedDepView>, s2: Seq<OutdatedDepView>) -> bool {
    forall|i: int, j: int|
        #![trigger s1[i], s2[j]]
        0 <= i < s1.len() && 0 <= j < s2.len() && s1[i].crate_name == s2[j].crate_name ==> s1[i]
            == s2[j]
}

proof fn lemma_names_sorted_tail(s: Seq<OutdatedDepView>)
    requires
        names_sorted(s),
        s.len() > 0,
    ensures
        names_sorted(s.drop_first()),
{
    let t = s.drop_first();
    assert forall|a: int, b: int| #![trigger t[a], t[b]] 0 <= a < b < t.len() implies seq_lt(
        t[a].crate_name,
        t[b].crate_name,
    ) by {
        assert(t[a] == s[a + 1] && t[b] == s[b + 1]);
    }
}

proof fn lemma_same_names_heads(s1: Seq<OutdatedDepView>, s2: Seq<OutdatedDepView>)
    requires
        names_sorted(s1),
        names_sorted(s2),
        name_set(s1) == name_set(s2),
        agree_by_name(s1, s2),
        s1.len() > 0,
    ensures
        s2.len() > 0,
        s1[0] == s2[0],
{
    reveal(agree_by_name);
    assert(name_set(s1).contains(s1[0].crate_name));
    assert(name_set(s2).contains(s1[0].crate_name));
    let j = choose|j: int| 0 <= j < s2.len() && s2[j].crate_name == s1[0].crate_name;
    assert(name_set(s2).contains(s2[0].crate_name));
    assert(name_set(s1).contains(s2[0].crate_name));
    let i = choose|i: int| 0 <= i < s1.len() && s1[i].crate_name == s2[0].crate_name;
    if s1[0].crate_name != s2[0].crate_name {
        assert(j > 0 && i > 0);
        assert(seq_lt(s2[0].crate_name, s2[j].crate_name));
        assert(seq_lt(s1[0].crate_name, s1[i].crate_name));
        lemma_seq_lt_total(s1[0].crate_name, s2[0].crate_name);
    }
}

/// In a list strictly ascending by name, the names after the first are the
/// names of the list without its first name.
proof fn lemma_name_set_tail(s: Seq<OutdatedDepView>)
    requires
        names_sorted(s),
        s.len() > 0,
    ensures
        name_set(s.drop_first()) == name_set(s).remove(s[0].crate_name),
{
    let t = s.drop_first();
    assert forall|n: Seq<char>| name_set(t).contains(n) <==> name_set(s).remove(s[0].crate_name).contains(n) by {
        if name_set(t).contains(n) {
            let k = choose|k: int| 0 <= k < t.len() && t[k].crate_name == n;
            assert(s[k + 1] == t[k]);
            assert(seq_lt(s[0].crate_name, s[k + 1].crate_name));
            lemma_seq_lt_irreflexive(n);
            assert(name_set(s).contains(n));
        }
        if name_set(s).remove(s[0].crate_name).contains(n) {
            let k = choose|k: int| 0 <= k < s.len() && s[k].crate_name == n;
            assert(k != 0);
            assert(t[k - 1] == s[k]);
            assert(name_set(t).contains(n));
        }
    }
    assert(name_set(t) =~= name_set(s).remove(s[0].crate_name));
}

proof fn lemma_agree_tails(s1: Seq<OutdatedDepView>, s2: Seq<OutdatedDepView>)
    requires
        agree_by_name(s1, s2),
        s1.len() > 0,
        s2.len() > 0,
    ensures
        agree_by_name(s1.drop_first(), s2.drop_first()),
{
    reveal(agree_by_name);
    let t1 = s1.drop_first();
    let t2 = s2.drop_first();
    assert forall|a: int, b: int|
        #![trigger t1[a], t2[b]]
        0 <= a < t1.len() && 0 <= b < t2.len() && t1[a].crate_name == t2[b].crate_name implies t1[a]
        == t2[b] by {
        assert(t1[a] == s1[a + 1] && t2[b] == s2[b + 1]);
    }
}

/// Two lists strictly ascending by name, with the same names, that agree
/// on the finding of each name, are the same list.
proof fn lemma_names_sorted_unique(s1: Seq<OutdatedDepView>, s2: Seq<OutdatedDepView>)
    requires
        names_sorted(s1),
        names_sorted(s2),
        name_set(s1) == name_set(s2),
        agree_by_name(s1, s2),
    ensures
        s1 == s2,
    decreases s1.len(),
{
    if s1.len() == 0 {
        if s2.len() > 0 {
            assert(name_set(s2).contains(s2[0].crate_name));
            assert(name_set(s1).contains(s2[0].crate_name));
        }
        assert(s1 =~= s2);
    } else {
        lemma_same_names_heads(s1, s2);
        lemma_name_set_tail(s1);
        lemma_name_set_tail(s2);
        lemma_agree_tails(s1, s2);
        lemma_names_sorted_tail(s1);
        lemma_names_sorted_tail(s2);
        lemma_names_sorted_unique(s1.drop_first(), s2.drop_first());
        assert(s1 =~= seq![s1[0]] + s1.drop_first());
        assert(s2 =~= seq![s2[0]] + s2.drop_first());
    }
}

/// The names of a result's outdated findings are the names of the kept raw findings.
proof fn lemma_canonical_name_set(
    c: DepCheckView,
    input: Seq<OutdatedDepView>,
    out: Seq<OutdatedDepView>,
)
    requires
        canonical_outdated(c, input, out),
    ensures
        name_set(out) == Set::new(
            |n: Seq<char>|
                exists|k: int| 0 <= k < input.len() && outdated_kept(c, input[k]) && input[k].crate_name == n,
        ),
{
    let kept_names = Set::new(
        |n: Seq<char>|
            exists|k: int| 0 <= k < input.len() && outdated_kept(c, input[k]) && input[k].crate_name == n,
    );
    assert forall|n: Seq<char>| name_set(out).contains(n) <==> kept_names.contains(n) by {
        if name_set(out).contains(n) {
            let i = choose|i: int| 0 <= i < out.len() && out[i].crate_name == n;
            assert(is_first_kept(c, input, out[i])) by {
                reveal(outdated_from_first_kept);
            }
            let k = choose|k: int| first_kept(c, input, k) && out[i] == #[trigger] input[k];
            assert(kept_names.contains(n));
        }
        if kept_names.contains(n) {
            let k = choose|k: int| 0 <= k < input.len() && outdated_kept(c, input[k]) && input[k].crate_name == n;
            assert(exists|i: int| 0 <= i < out.len() && out[i].crate_name == input[k].crate_name) by {
                reveal(outdated_covers_kept);
            }
            assert(name_set(out).contains(n));
        }
    }
    assert(name_set(out) =~= kept_names);
}

proof fn lemma_canonical_agree(
    c: DepCheckView,
    input: Seq<OutdatedDepView>,
    out1: Seq<OutdatedDepView>,
    out2: Seq<OutdatedDepView>,
)
    requires
        canonical_outdated(c, input, out1),
        canonical_outdated(c, input, out2),
    ensures
        agree_by_name(out1, out2),
{
    reveal(agree_by_name);
    assert forall|i: int, j: int|
        #![trigger out1[i], out2[j]]
        0 <= i < out1.len() && 0 <= j < out2.len() && out1[i].crate_name == out2[j].crate_name implies out1[i]
        == out2[j] by {
        assert(is_first_kept(c, input, out1[i])) by {
            reveal(outdated_from_first_kept);
        }
        assert(is_first_kept(c, input, out2[j])) by {
            reveal(outdated_from_first_kept);
        }
        let k1 = choose|k: int| first_kept(c, input, k) && out1[i] == #[trigger] input[k];
        let k2 = choose|k: int| first_kept(c, input, k) && out2[j] == #[trigger] input[k];
        lemma_first_kept_unique(c, input, k1, k2);
    }
}

/// The outdated findings of a result are fully determined by the raw
/// findings: one list, in one order, satisfies the result's contract.
pub proof fn lemma_outdated_result_determined(
    c: DepCheckView,
    input: Seq<OutdatedDepView>,
    out1: Seq<OutdatedDepView>,
    out2: Seq<OutdatedDepView>,
)
    requires
        canonical_outdated(c, input, out1),
        canonical_outdated(c, input, out2),
    ensures
        out1 == out2,
{
    lemma_canonical_name_set(c, input, out1);
    lemma_canonical_name_set(c, input, out2);
    lemma_canonical_agree(c, input, out1, out2);
    lemma_names_sorted_unique(out1, out2);
}

/// No finding of a result names an allowed crate, no unused finding names
/// an excluded crate, and every finding meets the severity threshold.
pub proof fn lemma_result_respects_filters(
    c: DepCheckView,
    raw_unused: Seq<UnusedDepView>,
    unused: Seq<UnusedDepView>,
    raw_outdated: Seq<OutdatedDepView>,
    outdated: Seq<OutdatedDepView>,
)
    requires
        canonical_unused(c, raw_unused, unused),
        canonical_outdated(c, raw_outdated, outdated),
    ensures
        forall|i: int|
            0 <= i < unused.len() ==> {
                &&& !c.allow_list.contains(#[trigger] unused[i].crate_name)
                &&& !c.excludes.contains(unused[i].crate_name)
                &&& meets_threshold(c.severity_threshold, Severity::Warning)
            },
        forall|i: int|
            0 <= i < outdated.len() ==> {
                &&& !c.allow_list.contains(#[trigger] outdated[i].crate_name)
                &&& meets_threshold(
                    c.severity_threshold,
                    outdated_severity(outdated[i].major_behind, c.escalate_at_majors),
                )
            },
{
    assert forall|i: int| 0 <= i < unused.len() implies unused_kept(c, #[trigger] unused[i]) by {
        assert(unused.contains(unused[i]));
    }
    assert(forall|i: int| 0 <= i < outdated.len() ==> is_first_kept(c, raw_outdated, #[trigger] outdated[i])) by {
        reveal(outdated_from_first_kept);
    }
    assert forall|i: int| 0 <= i < outdated.len() implies outdated_kept(c, #[trigger] outdated[i]) by {
        assert(is_first_kept(c, raw_outdated, outdated[i]));
        let k = choose|k: int| first_kept(c, raw_outdated, k) && outdated[i] == #[trigger] raw_outdated[k];
    }
}

/// A report has one check per finding, or the single passing health check
/// when there is none; every check is tagged `deps`; and a check fails
/// exactly when it reports an outdated finding at or past the escalation
/// threshold (so without escalation every finding is only a warning).
pub proof fn lemma_report_shape(r: DepResultView)
    ensures
        planned_checks(r).len() == if r.unused.len() + r.outdated.len() == 0 {
            1
        } else {
            r.unused.len() + r.outdated.len()
        },
        forall|i: int|
            0 <= i < planned_checks(r).len() ==> (#[trigger] planned_checks(r)[i]).tags[0]
                == "deps"@,
        r.unused.len() + r.outdated.len() == 0 ==> planned_checks(r)[0].verdict == Verdict::Pass,
        forall|i: int|
            0 <= i < r.outdated.len() ==> (planned_checks(r)[r.unused.len() + i].verdict
                == Verdict::Fail <==> (r.escalate_at_majors is Some && #[trigger] r.outdated[i].major_behind
                >= r.escalate_at_majors->0)),
        forall|i: int|
            0 <= i < r.unused.len() ==> #[trigger] planned_checks(r)[i].verdict == Verdict::Warn,
{
    let p = planned_checks(r);
    if r.unused.len() + r.outdated.len() > 0 {
        assert forall|i: int| 0 <= i < p.len() implies (#[trigger] p[i]).tags[0] == "deps"@ by {
            if i < r.unused.len() {
                assert(p[i] == unused_check(r.unused[i]));
            } else {
                assert(p[i] == outdated_check(r.outdated[i - r.unused.len()], r.escalate_at_majors));
            }
        }
        assert forall|i: int| 0 <= i < r.outdated.len() implies (p[r.unused.len() + i].verdict
            == Verdict::Fail <==> (r.escalate_at_majors is Some && #[trigger] r.outdated[i].major_behind
            >= r.escalate_at_majors->0)) by {
            assert(p[r.unused.len() + i] == outdated_check(r.outdated[i], r.escalate_at_majors));
        }
        assert forall|i: int| 0 <= i < r.unused.len() implies #[trigger] p[i].verdict == Verdict::Warn by {
            assert(p[i] == unused_check(r.unused[i]));
        }
    } else {
        assert(p[0] == health_check(r.scope));
    }
}

/// Every outdated finding read from tool output is a real update: both
/// versions are known and differ, and the crate has a name other than the
/// `---` sentinel.
pub proof fn lemma_outdated_findings_are_updates(rs: Seq<Seq<OutdatedEntryView>>)
    ensures
        forall|i: int|
            0 <= i < findings_of_reports(rs).len() ==> {
                let f = #[trigger] findings_of_reports(rs)[i];
                &&& f.current.len() > 0
                &&& f.latest.len() > 0
                &&& f.current != f.latest
                &&& f.crate_name.len() > 0
                &&& f.crate_name != "---"@
                &&& f.major_behind == spec_major_diff(f.current, f.latest)
            },
    decreases rs.len(),
{
    if rs.len() > 0 {
        lemma_outdated_findings_are_updates(rs.drop_last());
        lemma_entry_findings_are_updates(rs.last());
        let a = findings_of_reports(rs.drop_last());
        let b = findings_of(rs.last());
        assert forall|i: int| 0 <= i < findings_of_reports(rs).len() implies {
            let f = #[trigger] findings_of_reports(rs)[i];
            &&& f.current.len() > 0
            &&& f.latest.len() > 0
            &&& f.current != f.latest
            &&& f.crate_name.len() > 0
            &&& f.crate_name != "---"@
            &&& f.major_behind == spec_major_diff(f.current, f.latest)
        } by {
            if i < a.len() {
                assert(findings_of_reports(rs)[i] == a[i]);
            } else {
                assert(findings_of_reports(rs)[i] == b[i - a.len()]);
            }
        }
    }
}

proof fn lemma_entry_findings_are_updates(es: Seq<OutdatedEntryView>)
    ensures
        forall|i: int|
            0 <= i < findings_of(es).len() ==> {
                let f = #[trigger] findings_of(es)[i];
                &&& f.current.len() > 0
                &&& f.latest.len() > 0
                &&& f.current != f.latest
                &&& f.crate_name.len() > 0
                &&& f.crate_name != "---"@
                &&& f.major_behind == spec_major_diff(f.current, f.latest)
            },
    decreases es.len(),
{
    if es.len() > 0 {
        lemma_entry_findings_are_updates(es.drop_last());
    }
}

/// A version is never behind itself.
pub proof fn lemma_major_diff_self(v: Seq<char>)
    ensures
        spec_major_diff(v, v) == 0,
{
}

/// Allowing a list of names at once (`allow_all`) configures the same check
/// as allowing them one by one (`allow`), in order; allowing no names
/// changes nothing. Since a result depends only on the configuration and the
/// scanners' output, both give the same result for the same output.
pub proof fn lemma_allow_all_is_chain_of_allow(c: DepCheckView, names: Seq<Seq<char>>)
    ensures
        (DepCheckView { allow_list: c.allow_list + names, ..c }) == with_each_allowed(c, names),
        names.len() == 0 ==> (DepCheckView { allow_list: c.allow_list + names, ..c }) == c,
    decreases names.len(),
{
    if names.len() == 0 {
        assert(c.allow_list + names =~= c.allow_list);
    } else {
        lemma_allow_all_is_chain_of_allow(c, names.drop_last());
        assert(c.allow_list + names =~= (c.allow_list + names.drop_last()).push(names.last()));
    }
}

/// The total number of findings is the number of unused findings plus the
/// number of outdated ones; it is zero exactly when both lists are empty,
/// which is exactly when there is no worst severity.
pub proof fn lemma_total_is_sum_of_counts(r: DepResultView)
    ensures
        finding_count(r) == r.unused.len() + r.outdated.len(),
        finding_count(r) == 0 <==> (r.unused.len() == 0 && r.outdated.len() == 0),
        finding_count(r) == 0 <==> worst_of(finding_severities(r)) is None,
{
    lemma_worst_is_maximum(finding_severities(r));
}

/// The severity policy of an outdated finding, as documented: `Info` for
/// 0–1 major behind, `Warning` for 2 or more, and `Error` once the crate is
/// at least the escalation threshold behind (whatever its lag otherwise).
pub proof fn lemma_outdated_severity_table(major_behind: u32, escalate_at: Option<u32>)
    ensures
        escalate_at matches Some(n) && major_behind >= n ==> outdated_severity(
            major_behind,
            escalate_at,
        ) == Severity::Error,
        !(escalate_at matches Some(n) && major_behind >= n) && major_behind <= 1
            ==> outdated_severity(major_behind, escalate_at) == Severity::Info,
        !(escalate_at matches Some(n) && major_behind >= n) && major_behind >= 2
            ==> outdated_severity(major_behind, escalate_at) == Severity::Warning,
{
}

/// A raw outdated finding that is not allowed and reaches the threshold has
/// its name in the result.
proof fn lemma_outdated_kept_named(c: DepCheckView, raw: Seq<OutdatedDepView>, out: Seq<OutdatedDepView>)
    requires
        canonical_outdated(c, raw, out),
    ensures
        forall|k: int|
            0 <= k < raw.len() && !c.allow_list.contains(#[trigger] raw[k].crate_name) && (
            c.severity_threshold matches Some(t) ==> rank(
                outdated_severity(raw[k].major_behind, c.escalate_at_majors),
            ) >= rank(t)) ==> name_set(out).contains(raw[k].crate_name),
{
    assert forall|k: int|
        0 <= k < raw.len() && !c.allow_list.contains(#[trigger] raw[k].crate_name) && (
        c.severity_threshold matches Some(t) ==> rank(
            outdated_severity(raw[k].major_behind, c.escalate_at_majors),
        ) >= rank(t)) implies name_set(out).contains(raw[k].crate_name) by {
        assert(outdated_kept(c, raw[k]));
        reveal(outdated_covers_kept);
        let i = choose|i: int| 0 <= i < out.len() && out[i].crate_name == raw[k].crate_name;
        assert(out[i].crate_name == raw[k].crate_name);
    }
}

/// Every finding of the result is a raw finding whose name is not allowed.
proof fn lemma_outdated_from_raw(c: DepCheckView, raw: Seq<OutdatedDepView>, out: Seq<OutdatedDepView>)
    requires
        canonical_outdated(c, raw, out),
    ensures
        forall|i: int|
            0 <= i < out.len() ==> raw.contains(#[trigger] out[i]) && !c.allow_list.contains(
                out[i].crate_name,
            ) && (c.severity_threshold matches Some(t) ==> rank(
                outdated_severity(out[i].major_behind, c.escalate_at_majors),
            ) >= rank(t)),
{
    assert forall|i: int| 0 <= i < out.len() implies raw.contains(#[trigger] out[i])
        && !c.allow_list.contains(out[i].crate_name) && (c.severity_threshold matches Some(t)
        ==> rank(outdated_severity(out[i].major_behind, c.escalate_at_majors)) >= rank(t)) by {
        assert(is_first_kept(c, raw, out[i])) by {
            reveal(outdated_from_first_kept);
        }
        let k = choose|k: int| first_kept(c, raw, k) && out[i] == #[trigger] raw[k];
        assert(raw[k] == out[i]);
    }
}

/// Nothing but the allow-list and the severity threshold drops an outdated
/// finding: every raw finding whose crate name is not allowed, and whose
/// severity reaches the threshold when one is set, has its crate name among
/// the result's outdated findings. Conversely every finding of the result
/// is one of the raw findings, with a name that is not allowed. So with no
/// allow-list and no threshold, the result names exactly the raw names.
pub proof fn lemma_outdated_filter_complete(
    c: DepCheckView,
    raw: Seq<OutdatedDepView>,
    out: Seq<OutdatedDepView>,
)
    requires
        canonical_outdated(c, raw, out),
    ensures
        forall|k: int|
            0 <= k < raw.len() && !c.allow_list.contains(#[trigger] raw[k].crate_name) && (
            c.severity_threshold matches Some(t) ==> rank(
                outdated_severity(raw[k].major_behind, c.escalate_at_majors),
            ) >= rank(t)) ==> name_set(out).contains(raw[k].crate_name),
        forall|i: int|
            0 <= i < out.len() ==> raw.contains(#[trigger] out[i]) && !c.allow_list.contains(
                out[i].crate_name,
            ) && (c.severity_threshold matches Some(t) ==> rank(
                outdated_severity(out[i].major_behind, c.escalate_at_majors),
            ) >= rank(t)),
        c.allow_list.len() == 0 && c.severity_threshold is None ==> name_set(out) == name_set(raw),
{
    lemma_outdated_kept_named(c, raw, out);
    lemma_outdated_from_raw(c, raw, out);
    if c.allow_list.len() == 0 && c.severity_threshold is None {
        assert forall|n: Seq<char>| name_set(out).contains(n) <==> name_set(raw).contains(n) by {
            if name_set(out).contains(n) {
                let i = choose|i: int| 0 <= i < out.len() && out[i].crate_name == n;
                assert(raw.contains(out[i]));
                let k = choose|k: int| 0 <= k < raw.len() && raw[k] == out[i];
                assert(raw[k].crate_name == n);
            }
            if name_set(raw).contains(n) {
                let k = choose|k: int| 0 <= k < raw.len() && raw[k].crate_name == n;
                assert(!c.allow_list.contains(raw[k].crate_name));
            }
        }
        assert(name_set(out) =~= name_set(raw));
    }
}

/// Nothing but the allow-list, the excludes and the severity threshold drops
/// an unused finding: every raw finding whose crate name is neither allowed
/// nor excluded is in the result, unless a threshold above `Warning` is set.
pub proof fn lemma_unused_filter_complete(
    c: DepCheckView,
    raw: Seq<UnusedDepView>,
    out: Seq<UnusedDepView>,
)
    requires
        canonical_unused(c, raw, out),
    ensures
        forall|k: int|
            0 <= k < raw.len() && !c.allow_list.contains(#[trigger] raw[k].crate_name)
                && !c.excludes.contains(raw[k].crate_name) && (c.severity_threshold matches Some(
                t,
            ) ==> rank(t) <= rank(Severity::Warning)) ==> out.contains(raw[k]),
        forall|x: UnusedDepView|
            out.contains(x) ==> raw.contains(x) && !c.allow_list.contains(x.crate_name)
                && !c.excludes.contains(x.crate_name) && (c.severity_threshold matches Some(t)
                ==> rank(t) <= rank(Severity::Warning)),
{
    assert forall|k: int|
        0 <= k < raw.len() && !c.allow_list.contains(#[trigger] raw[k].crate_name)
            && !c.excludes.contains(raw[k].crate_name) && (c.severity_threshold matches Some(t)
            ==> rank(t) <= rank(Severity::Warning)) implies out.contains(raw[k]) by {
        assert(raw.contains(raw[k]));
        assert(unused_kept(c, raw[k]));
    }
}

/// `cargo udeps` exits non-zero when it finds unused dependencies, so the
/// exit status matters only when stdout is blank: then a failed run is a
/// subprocess failure carrying stderr, and a successful one has no
/// findings. Any other stdout is read the same way whatever the status:
/// without a decoding failure, into the findings of its packages.
pub proof fn lemma_udeps_status_only_matters_when_blank(
    stdout: Seq<char>,
    stderr: Seq<char>,
    packages: Seq<Option<UnusedKindsView>>,
    failure: Option<Seq<char>>,
)
    ensures
        !is_blank_spec(stdout) ==> crate::udeps::spec_interpret(
            stdout,
            false,
            stderr,
            packages,
            failure,
        ) == crate::udeps::spec_interpret(stdout, true, stderr, packages, failure),
        !is_blank_spec(stdout) && failure is None ==> crate::udeps::spec_interpret(
            stdout,
            false,
            stderr,
            packages,
            failure,
        ) == Ok::<Seq<UnusedDepView>, DepErrorView>(packages_findings(packages)),
        !is_blank_spec(stdout) && failure is Some ==> crate::udeps::spec_interpret(
            stdout,
            false,
            stderr,
            packages,
            failure,
        ) is Err && crate::udeps::spec_interpret(stdout, false, stderr, packages, failure)->Err_0
            is ParseError,
        is_blank_spec(stdout) ==> crate::udeps::spec_interpret(
            stdout,
            false,
            stderr,
            packages,
            failure,
        ) == Err::<Seq<UnusedDepView>, DepErrorView>(DepErrorView::SubprocessFailed(stderr)),
        is_blank_spec(stdout) ==> crate::udeps::spec_interpret(
            stdout,
            true,
            stderr,
            packages,
            failure,
        ) == Ok::<Seq<UnusedDepView>, DepErrorView>(Seq::empty()),
{
}

/// `cargo outdated` output is read the same way whatever the exit status,
/// unless stdout is blank: then a failed run is a subprocess failure
/// carrying stderr, and a successful one has no findings. Non-blank output
/// with decoded reports and no decoding failure gives the findings of the
/// reports.
pub proof fn lemma_outdated_status_only_matters_when_blank(
    stdout: Seq<char>,
    stderr: Seq<char>,
    reports: Seq<Seq<OutdatedEntryView>>,
    failure: Option<Seq<char>>,
)
    ensures
        !is_blank_spec(stdout) ==> crate::outdated::spec_interpret(
            stdout,
            false,
            stderr,
            reports,
            failure,
        ) == crate::outdated::spec_interpret(stdout, true, stderr, reports, failure),
        !is_blank_spec(stdout) && failure is None && reports.len() > 0
            ==> crate::outdated::spec_interpret(stdout, false, stderr, reports, failure) == Ok::<
            Seq<OutdatedDepView>,
            DepErrorView,
        >(findings_of_reports(reports)),
        !is_blank_spec(stdout) && (failure is Some || reports.len() == 0)
            ==> crate::outdated::spec_interpret(stdout, false, stderr, reports, failure) is Err
            && crate::outdated::spec_interpret(stdout, false, stderr, reports, failure)->Err_0
            is ParseError,
        is_blank_spec(stdout) ==> crate::outdated::spec_interpret(
            stdout,
            false,
            stderr,
            reports,
            failure,
        ) == Err::<Seq<OutdatedDepView>, DepErrorView>(DepErrorView::SubprocessFailed(stderr)),
        is_blank_spec(stdout) ==> crate::outdated::spec_interpret(
            stdout,
            true,
            stderr,
            reports,
            failure,
        ) == Ok::<Seq<OutdatedDepView>, DepErrorView>(Seq::empty()),
{
}

/// Each check of a report carries the finding it reports and that
/// finding's own severity: for the `i`-th unused finding, the check at `i`
/// is a `Warning` warning named `deps::unused::<crate>`; for the `i`-th
/// outdated finding, the check after the unused ones is named
/// `deps::outdated::<crate>`, has the severity `OutdatedDep::severity`
/// gives under the result's escalation threshold, and fails exactly when
/// that severity is `Error` (otherwise it warns), and carries the versions
/// and the lag as detail and the lag as numeric evidence. Every check is
/// tagged `deps` plus its category. Without findings the only check is the
/// passing `deps::health`, with no severity, naming the scope.
pub proof fn lemma_report_checks_carry_severity(r: DepResultView)
    ensures
        forall|i: int|
            0 <= i < r.unused.len() ==> {
                &&& (#[trigger] planned_checks(r)[i]).severity == Some(Severity::Warning)
                &&& planned_checks(r)[i].verdict == Verdict::Warn
                &&& planned_checks(r)[i].name == "deps::unused::"@ + r.unused[i].crate_name
                &&& planned_checks(r)[i].tags == seq!["deps"@, "unused"@]
                &&& planned_checks(r)[i].detail == Some("unused in "@ + r.unused[i].kind.spec_as_str())
            },
        forall|i: int|
            0 <= i < r.outdated.len() ==> {
                let sev = outdated_severity(r.outdated[i].major_behind, r.escalate_at_majors);
                &&& (#[trigger] planned_checks(r)[r.unused.len() + i]).severity == Some(sev)
                &&& planned_checks(r)[r.unused.len() + i].verdict == if sev == Severity::Error {
                    Verdict::Fail
                } else {
                    Verdict::Warn
                }
                &&& planned_checks(r)[r.unused.len() + i].name == "deps::outdated::"@
                    + r.outdated[i].crate_name
                &&& planned_checks(r)[r.unused.len() + i].tags == seq!["deps"@, "outdated"@]
                &&& planned_checks(r)[r.unused.len() + i].detail == Some(
                    r.outdated[i].current + " -> "@ + r.outdated[i].latest + " ("@ + decimal(
                        r.outdated[i].major_behind as nat,
                    ) + " major behind)"@,
                )
                &&& planned_checks(r)[r.unused.len() + i].evidence[0] == EvidenceModel::Numeric {
                    label: "major_behind"@,
                    value: r.outdated[i].major_behind as int,
                }
            },
        r.unused.len() + r.outdated.len() == 0 ==> {
            &&& planned_checks(r).len() == 1
            &&& planned_checks(r)[0].severity is None
            &&& planned_checks(r)[0].verdict == Verdict::Pass
            &&& planned_checks(r)[0].name == "deps::health"@
            &&& planned_checks(r)[0].tags == seq!["deps"@]
            &&& planned_checks(r)[0].detail == Some(spec_scope_label(r.scope) + " scope: no findings"@)
        },
{
    let p = planned_checks(r);
    if r.unused.len() + r.outdated.len() > 0 {
        assert forall|i: int| 0 <= i < r.unused.len() implies {
            &&& (#[trigger] planned_checks(r)[i]).severity == Some(Severity::Warning)
            &&& planned_checks(r)[i].verdict == Verdict::Warn
            &&& planned_checks(r)[i].name == "deps::unused::"@ + r.unused[i].crate_name
            &&& planned_checks(r)[i].tags == seq!["deps"@, "unused"@]
            &&& planned_checks(r)[i].detail == Some("unused in "@ + r.unused[i].kind.spec_as_str())
        } by {
            assert(p[i] == unused_check(r.unused[i]));
        }
        assert forall|i: int| 0 <= i < r.outdated.len() implies {
            let sev = outdated_severity(r.outdated[i].major_behind, r.escalate_at_majors);
            &&& (#[trigger] planned_checks(r)[r.unused.len() + i]).severity == Some(sev)
            &&& planned_checks(r)[r.unused.len() + i].verdict == if sev == Severity::Error {
                Verdict::Fail
            } else {
                Verdict::Warn
            }
            &&& planned_checks(r)[r.unused.len() + i].name == "deps::outdated::"@
                + r.outdated[i].crate_name
            &&& planned_checks(r)[r.unused.len() + i].tags == seq!["deps"@, "outdated"@]
            &&& planned_checks(r)[r.unused.len() + i].detail == Some(
                r.outdated[i].current + " -> "@ + r.outdated[i].latest + " ("@ + decimal(
                    r.outdated[i].major_behind as nat,
                ) + " major behind)"@,
            )
            &&& planned_checks(r)[r.unused.len() + i].evidence[0] == EvidenceModel::Numeric {
                label: "major_behind"@,
                value: r.outdated[i].major_behind as int,
            }
        } by {
            assert(p[r.unused.len() + i] == outdated_check(r.outdated[i], r.escalate_at_majors));
        }
    } else {
        assert(p[0] == health_check(r.scope));
    }
}

/// The worst severity of a result is absent exactly when there are no
/// findings. Otherwise it is at least `Warning` when there is an unused
/// finding, at least the severity `OutdatedDep::severity` gives every
/// outdated finding under the result's escalation threshold, and it is the
/// severity of one of the findings.
pub proof fn lemma_worst_severity_over_findings(r: DepResultView)
    ensures
        worst_of(finding_severities(r)) is None <==> r.unused.len() + r.outdated.len() == 0,
        worst_of(finding_severities(r)) matches Some(w) ==> {
            &&& r.unused.len() > 0 ==> rank(Severity::Warning) <= rank(w)
            &&& forall|i: int|
                0 <= i < r.outdated.len() ==> rank(
                    outdated_severity(#[trigger] r.outdated[i].major_behind, r.escalate_at_majors),
                ) <= rank(w)
            &&& (r.unused.len() > 0 && w == Severity::Warning) || exists|i: int|
                0 <= i < r.outdated.len() && w == outdated_severity(
                    #[trigger] r.outdated[i].major_behind,
                    r.escalate_at_majors,
                )
        },
{
    let s = finding_severities(r);
    let nu = r.unused.len() as int;
    lemma_worst_is_maximum(s);
    assert(s.len() == r.unused.len() + r.outdated.len());
    if let Some(w) = worst_of(s) {
        if nu > 0 {
            assert(s[0] == Severity::Warning);
        }
        assert forall|i: int| 0 <= i < r.outdated.len() implies rank(
            outdated_severity(#[trigger] r.outdated[i].major_behind, r.escalate_at_majors),
        ) <= rank(w) by {
            assert(s[nu + i] == outdated_severity(r.outdated[i].major_behind, r.escalate_at_majors));
        }
        let j = choose|j: int| 0 <= j < s.len() && s[j] == w;
        if j < nu {
            assert(s[j] == Severity::Warning);
        } else {
            assert(s[j] == outdated_severity(r.outdated[j - nu].major_behind, r.escalate_at_majors));
        }
    }
}

proof fn lemma_decimal_digits(n: nat)
    ensures
        decimal(n).len() > 0,
        all_digits(decimal(n)),
        digits_value(decimal(n)) == n,
    decreases n,
{
    broadcast use vstd::utf8::char_u32_cast;

    if n < 10 {
        let d = decimal(n);
        assert(d[0] == digit_char(n));
        assert((digit_char(n) as u32) == n + 48);
        assert(d.drop_last() =~= Seq::<char>::empty());
        assert(d.last() == d[0]);
        assert(digits_value(d.drop_last()) == 0);
        assert(digits_value(d) == digits_value(d.drop_last()) * 10 + (d.last() as u32 - 48));
    } else {
        lemma_decimal_digits(n / 10);
        let d = decimal(n);
        let p = decimal(n / 10);
        assert(d.drop_last() =~= p);
        assert(d.last() == digit_char(n % 10));
        assert((digit_char(n % 10) as u32) == n % 10 + 48);
        assert(digits_value(d) == digits_value(p) * 10 + (d.last() as u32 - 48));
        assert(digits_value(p) == n / 10);
        assert((n / 10) * 10 + n % 10 == n) by (nonlinear_arith);
        assert forall|i: int| 0 <= i < d.len() implies is_digit(#[trigger] d[i]) by {
            if i < p.len() {
                assert(d[i] == p[i]);
            }
        }
    }
}

proof fn lemma_before_dot_digits(d: Seq<char>, rest: Seq<char>)
    requires
        all_digits(d),
    ensures
        before_dot(d + seq!['.'] + rest) == d,
    decreases d.len(),
{
    let s = d + seq!['.'] + rest;
    if d.len() == 0 {
        assert(s[0] == '.');
        assert(before_dot(s) =~= d);
    } else {
        let t = d.drop_first();
        assert(all_digits(t)) by {
            assert forall|i: int| 0 <= i < t.len() implies is_digit(#[trigger] t[i]) by {
                assert(t[i] == d[i + 1]);
            }
        }
        lemma_before_dot_digits(t, rest);
        assert(s[0] == d[0]);
        assert(is_digit(d[0]));
        assert(s.drop_first() =~= t + seq!['.'] + rest);
        assert(before_dot(s) =~= seq![d[0]] + t);
        assert(seq![d[0]] + t =~= d);
    }
}

proof fn lemma_skip_non_digits_prefix(pre: Seq<char>, s: Seq<char>)
    requires
        forall|i: int| 0 <= i < pre.len() ==> !is_digit(#[trigger] pre[i]),
    ensures
        skip_non_digits(pre + s) == skip_non_digits(s),
    decreases pre.len(),
{
    if pre.len() > 0 {
        let t = pre.drop_first();
        assert forall|i: int| 0 <= i < t.len() implies !is_digit(#[trigger] t[i]) by {
            assert(t[i] == pre[i + 1]);
        }
        lemma_skip_non_digits_prefix(t, s);
        assert((pre + s)[0] == pre[0]);
        assert(!is_digit(pre[0]));
        assert((pre + s).drop_first() =~= t + s);
    } else {
        assert(pre + s =~= s);
    }
}

/// The major component of a version written `<pre><n>.<rest>`, where the
/// prefix holds no digit (such as `^`, `~` or `v`), is `n`, for every `n`
/// that fits in a `u32` (so `0.9.2` has major 0 and `^10.0` major 10). A
/// text without any digit has no major component.
pub proof fn lemma_major_of_numbered_version(pre: Seq<char>, n: u32, rest: Seq<char>)
    requires
        forall|i: int| 0 <= i < pre.len() ==> !is_digit(#[trigger] pre[i]),
    ensures
        spec_major(pre + decimal(n as nat) + seq!['.'] + rest) == Some(n),
        spec_major(pre) is None,
{
    let d = decimal(n as nat);
    lemma_decimal_digits(n as nat);
    let s = d + seq!['.'] + rest;
    assert(s[0] == d[0]);
    assert(is_digit(d[0]));
    assert(skip_non_digits(s) == s);
    lemma_before_dot_digits(d, rest);
    lemma_skip_non_digits_prefix(pre, s);
    assert(pre + d + seq!['.'] + rest =~= pre + s);
    lemma_skip_non_digits_prefix(pre, Seq::empty());
    assert(pre + Seq::<char>::empty() =~= pre);
    assert(before_dot(Seq::<char>::empty()) =~= Seq::<char>::empty());
}

/// The lag between two versions is the latest major minus the current
/// major, 0 when the current one is not behind; and 0 when either major
/// cannot be read. For versions written `<c>.<...>` and `<l>.<...>` it is
/// `l - c` when `l >= c`, whatever `c` is (a `0.x` version included).
pub proof fn lemma_major_diff_is_lag(current: Seq<char>, latest: Seq<char>, c: u32, l: u32, r1: Seq<char>, r2: Seq<char>)
    ensures
        match (spec_major(current), spec_major(latest)) {
            (Some(a), Some(b)) => spec_major_diff(current, latest) == if b >= a {
                (b - a) as u32
            } else {
                0u32
            },
            _ => spec_major_diff(current, latest) == 0,
        },
        spec_major_diff(decimal(c as nat) + seq!['.'] + r1, decimal(l as nat) + seq!['.'] + r2)
            == if l >= c {
            (l - c) as u32
        } else {
            0u32
        },
        spec_major_diff(current, current) == 0,
{
    lemma_major_of_numbered_version(Seq::empty(), c, r1);
    lemma_major_of_numbered_version(Seq::empty(), l, r2);
    assert(Seq::<char>::empty() + decimal(c as nat) =~= decimal(c as nat));
    assert(Seq::<char>::empty() + decimal(l as nat) =~= decimal(l as nat));
}

/// Crate names are ordered as Rust orders strings: after a common prefix,
/// the name whose next character has the smaller code point comes first,
/// and a name comes before every longer name it is a prefix of.
pub proof fn lemma_name_order_is_string_order(
    p: Seq<char>,
    x: char,
    y: char,
    a: Seq<char>,
    b: Seq<char>,
    q: Seq<char>,
)
    ensures
        x != y ==> (seq_lt(p + seq![x] + a, p + seq![y] + b) <==> (x as u32) < (y as u32)),
        q.len() > 0 ==> seq_lt(p, p + q),
        !seq_lt(p + q, p),
    decreases p.len(),
{
    if p.len() > 0 {
        let t = p.drop_first();
        lemma_name_order_is_string_order(t, x, y, a, b, q);
        assert((p + seq![x] + a).drop_first() =~= t + seq![x] + a);
        assert((p + seq![y] + b).drop_first() =~= t + seq![y] + b);
        assert((p + q).drop_first() =~= t + q);
        assert((p + seq![x] + a)[0] == p[0]);
        assert((p + seq![y] + b)[0] == p[0]);
        assert((p + q)[0] == p[0]);
    } else {
        assert(p + seq![x] + a =~= seq![x] + a);
        assert(p + seq![y] + b =~= seq![y] + b);
        assert((seq![x] + a)[0] == x);
        assert((seq![y] + b)[0] == y);
        assert(p + q =~= q);
    }
}

/// Unused findings of one crate are ordered by where they are declared:
/// `[dependencies]`, then `[dev-dependencies]`, then `[build-dependencies]`.
pub proof fn lemma_kind_order()
    ensures
        kind_rank(DepKind::Normal) < kind_rank(DepKind::Development),
        kind_rank(DepKind::Development) < kind_rank(DepKind::Build),
        forall|n: Seq<char>, k1: DepKind, k2: DepKind|
            unused_lt(UnusedDepView { crate_name: n, kind: k1 }, UnusedDepView { crate_name: n, kind: k2 })
                <==> kind_rank(k1) < kind_rank(k2),
{
    assert forall|n: Seq<char>, k1: DepKind, k2: DepKind|
        unused_lt(UnusedDepView { crate_name: n, kind: k1 }, UnusedDepView { crate_name: n, kind: k2 })
            <==> kind_rank(k1) < kind_rank(k2) by {
        lemma_seq_lt_irreflexive(n);
    }
}

/// The findings read from the rows of a `cargo outdated` report are, in
/// order, the rows that are real updates (both versions given and
/// different, a name other than the `---` sentinel), each with its name,
/// versions, major-version lag and kind.
pub proof fn lemma_outdated_rows_to_findings(es: Seq<OutdatedEntryView>)
    ensures
        findings_of(es) == es.filter(
            |e: OutdatedEntryView|
                e.project.len() > 0 && e.latest.len() > 0 && e.project != e.latest && e.name.len()
                    > 0 && e.name != "---"@,
        ).map_values(
            |e: OutdatedEntryView|
                OutdatedDepView {
                    crate_name: e.name,
                    current: e.project,
                    latest: e.latest,
                    major_behind: spec_major_diff(e.project, e.latest),
                    kind: spec_kind_from_label(e.kind),
                },
        ),
    decreases es.len(),
{
    let pred = |e: OutdatedEntryView|
        e.project.len() > 0 && e.latest.len() > 0 && e.project != e.latest && e.name.len() > 0
            && e.name != "---"@;
    let f = |e: OutdatedEntryView|
        OutdatedDepView {
            crate_name: e.name,
            current: e.project,
            latest: e.latest,
            major_behind: spec_major_diff(e.project, e.latest),
            kind: spec_kind_from_label(e.kind),
        };
    reveal(Seq::filter);
    if es.len() == 0 {
        assert(es.filter(pred) =~= Seq::<OutdatedEntryView>::empty());
        assert(es.filter(pred).map_values(f) =~= Seq::<OutdatedDepView>::empty());
    } else {
        lemma_outdated_rows_to_findings(es.drop_last());
        let sub = es.drop_last().filter(pred);
        if pred(es.last()) {
            assert(es.filter(pred) == sub.push(es.last()));
            assert(sub.push(es.last()).map_values(f) =~= sub.map_values(f).push(f(es.last())));
        } else {
            assert(es.filter(pred) == sub);
        }
    }
}

/// A finding of the given kind is among a package's findings exactly when
/// its name is listed in the section of that kind.
proof fn lemma_package_findings_contains(k: UnusedKindsView, x: UnusedDepView)
    ensures
        package_findings(k).contains(x) <==> match x.kind {
            DepKind::Normal => k.normal.contains(x.crate_name),
            DepKind::Development => k.development.contains(x.crate_name),
            DepKind::Build => k.build.contains(x.crate_name),
        },
{
    let a = section_findings(k.normal, DepKind::Normal);
    let b = section_findings(k.development, DepKind::Development);
    let c = section_findings(k.build, DepKind::Build);
    let all = package_findings(k);
    assert(all == a + b + c);
    if all.contains(x) {
        let i = choose|i: int| 0 <= i < all.len() && all[i] == x;
        if i < a.len() {
            assert(all[i] == a[i]);
            assert(k.normal[i] == x.crate_name);
        } else if i < a.len() + b.len() {
            assert(all[i] == b[i - a.len()]);
            assert(k.development[i - a.len()] == x.crate_name);
        } else {
            assert(all[i] == c[i - a.len() - b.len()]);
            assert(k.build[i - a.len() - b.len()] == x.crate_name);
        }
    }
    match x.kind {
        DepKind::Normal => if k.normal.contains(x.crate_name) {
            let i = choose|i: int| 0 <= i < k.normal.len() && k.normal[i] == x.crate_name;
            assert(all[i] == a[i]);
            assert(a[i] == x);
        },
        DepKind::Development => if k.development.contains(x.crate_name) {
            let i = choose|i: int| 0 <= i < k.development.len() && k.development[i] == x.crate_name;
            assert(all[a.len() + i] == b[i]);
            assert(b[i] == x);
        },
        DepKind::Build => if k.build.contains(x.crate_name) {
            let i = choose|i: int| 0 <= i < k.build.len() && k.build[i] == x.crate_name;
            assert(all[a.len() + b.len() + i] == c[i]);
            assert(c[i] == x);
        },
    }
}

/// Package `j` could be decoded and lists the finding's crate name in the
/// section of the finding's kind.
pub open spec fn lists_finding(ps: Seq<Option<UnusedKindsView>>, j: int, x: UnusedDepView) -> bool {
    &&& 0 <= j < ps.len()
    &&& ps[j] matches Some(k) && match x.kind {
        DepKind::Normal => k.normal.contains(x.crate_name),
        DepKind::Development => k.development.contains(x.crate_name),
        DepKind::Build => k.build.contains(x.crate_name),
    }
}

/// The unused findings read from `cargo udeps` output are exactly the names
/// listed in the sections of the packages that could be decoded, each with
/// the kind of its section (`normal`, `development`, `build`); a package
/// that could not be decoded contributes nothing.
pub proof fn lemma_udeps_findings_are_listed_names(ps: Seq<Option<UnusedKindsView>>, x: UnusedDepView)
    ensures
        packages_findings(ps).contains(x) <==> exists|j: int| #[trigger] lists_finding(ps, j, x),
    decreases ps.len(),
{
    if ps.len() > 0 {
        let init = ps.drop_last();
        lemma_udeps_findings_are_listed_names(init, x);
        let tail = match ps.last() {
            Some(k) => package_findings(k),
            None => Seq::empty(),
        };
        assert(packages_findings(ps) == packages_findings(init) + tail);
        if let Some(k) = ps.last() {
            lemma_package_findings_contains(k, x);
        }
        if packages_findings(ps).contains(x) {
            let i = choose|i: int| 0 <= i < packages_findings(ps).len() && packages_findings(ps)[i] == x;
            if i < packages_findings(init).len() {
                assert(packages_findings(init)[i] == x);
                assert(packages_findings(init).contains(x));
                let j = choose|j: int| #[trigger] lists_finding(init, j, x);
                assert(ps[j] == init[j]);
                assert(lists_finding(ps, j, x));
            } else {
                assert(tail[i - packages_findings(init).len()] == x);
                assert(tail.contains(x));
                assert(lists_finding(ps, ps.len() - 1, x));
            }
        }
        if exists|j: int| #[trigger] lists_finding(ps, j, x) {
            let j = choose|j: int| #[trigger] lists_finding(ps, j, x);
            if j < ps.len() - 1 {
                assert(init[j] == ps[j]);
                assert(lists_finding(init, j, x));
                assert(packages_findings(init).contains(x));
                let i = choose|i: int| 0 <= i < packages_findings(init).len() && packages_findings(init)[i] == x;
                assert(packages_findings(ps)[i] == x);
            } else {
                assert(tail.contains(x));
                let i = choose|i: int| 0 <= i < tail.len() && tail[i] == x;
                assert(packages_findings(ps)[packages_findings(init).len() + i] == x);
            }
        }
    }
}

/// Severities rank from least to most serious: `Info`, `Warning`, `Error`,
/// `Critical`.
pub proof fn lemma_severity_order()
    ensures
        rank(Severity::Info) < rank(Severity::Warning),
        rank(Severity::Warning) < rank(Severity::Error),
        rank(Severity::Error) < rank(Severity::Critical),
{
}

} // verus!
