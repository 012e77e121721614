//! The configuration of a dependency check, and the filtering, ordering and
//! de-duplication that turn raw tool findings into a `DepResult`.
use vstd::prelude::*;
use crate::findings::{outdated_severity, OutdatedDep, OutdatedDepView, UnusedDep, UnusedDepView};
use crate::kinds::{kind_rank, DepScope};
use crate::result::DepResult;
use crate::severity::{rank, severity_ord, Severity};
use crate::text::{lemma_seq_lt_irreflexive, lemma_seq_lt_total, lemma_seq_lt_transitive, seq_lt, str_lt};

verus! {

/// Configuration for a dependency check.
#[derive(Debug, Clone)]
pub struct DepCheck {
    name: String,
    version: String,
    scope: DepScope,
    workdir: Option<String>,
    workspace: bool,
    excludes: Vec<String>,
    allow_list: Vec<String>,
    severity_threshold: Option<Severity>,
    escalate_at_majors: Option<u32>,
}

/// The content of a check's configuration.
pub struct DepCheckView {
    pub name: Seq<char>,
    pub version: Seq<char>,
    pub scope: DepScope,
    pub workdir: Option<Seq<char>>,
    pub workspace: bool,
    pub excludes: Seq<Seq<char>>,
    pub allow_list: Seq<Seq<char>>,
    pub severity_threshold: Option<Severity>,
    pub escalate_at_majors: Option<u32>,
}

impl View for DepCheck {
    type V = DepCheckView;

    closed spec fn view(&self) -> DepCheckView {
        DepCheckView {
            name: self.name@,
            version: self.version@,
            scope: self.scope,
            workdir: match self.workdir {
                Some(d) => Some(d@),
                None => None,
            },
            workspace: self.workspace,
            excludes: self.excludes.deep_view(),
            allow_list: self.allow_list.deep_view(),
            severity_threshold: self.severity_threshold,
            escalate_at_majors: self.escalate_at_majors,
        }
    }
}

/// The configuration after allowing one more crate name.
pub open spec fn with_allowed(c: DepCheckView, name: Seq<char>) -> DepCheckView {
    DepCheckView { allow_list: c.allow_list.push(name), ..c }
}

/// The configuration after allowing each of the names in turn.
pub open spec fn with_each_allowed(c: DepCheckView, names: Seq<Seq<char>>) -> DepCheckView
    decreases names.len(),
{
    if names.len() == 0 {
        c
    } else {
        with_allowed(with_each_allowed(c, names.drop_last()), names.last())
    }
}

/// A severity passes the threshold (if there is one) when it is at least as serious.
pub open spec fn meets_threshold(threshold: Option<Severity>, s: Severity) -> bool {
    threshold matches Some(t) ==> rank(s) >= rank(t)
}

/// An unused finding survives the allow-list, the excludes and the threshold.
pub open spec fn unused_kept(c: DepCheckView, u: UnusedDepView) -> bool {
    &&& !c.allow_list.contains(u.crate_name)
    &&& !c.excludes.contains(u.crate_name)
    &&& meets_threshold(c.severity_threshold, Severity::Warning)
}

/// An outdated finding survives the allow-list and the threshold.
pub open spec fn outdated_kept(c: DepCheckView, o: OutdatedDepView) -> bool {
    &&& !c.allow_list.contains(o.crate_name)
    &&& meets_threshold(
        c.severity_threshold,
        outdated_severity(o.major_behind, c.escalate_at_majors),
    )
}

/// Order of unused findings: by crate name, then by kind.
pub open spec fn unused_lt(a: UnusedDepView, b: UnusedDepView) -> bool {
    seq_lt(a.crate_name, b.crate_name) || (a.crate_name == b.crate_name && kind_rank(a.kind)
        < kind_rank(b.kind))
}

/// Strictly ascending by (crate name, kind): sorted and free of duplicates.
pub open spec fn unused_sorted(s: Seq<UnusedDepView>) -> bool {
    forall|i: int, j: int| #![trigger s[i], s[j]] 0 <= i < j < s.len() ==> unused_lt(s[i], s[j])
}

/// Strictly ascending by crate name: sorted, one finding per name.
pub open spec fn names_sorted(s: Seq<OutdatedDepView>) -> bool {
    forall|i: int, j: int|
        #![trigger s[i], s[j]]
        0 <= i < j < s.len() ==> seq_lt(s[i].crate_name, s[j].crate_name)
}

/// The unused findings of a result, given the raw ones: the kept findings,
/// each once, in ascending (crate name, kind) order.
pub open spec fn canonical_unused(
    c: DepCheckView,
    input: Seq<UnusedDepView>,
    out: Seq<UnusedDepView>,
) -> bool {
    &&& unused_sorted(out)
    &&& forall|x: UnusedDepView| out.contains(x) <==> (input.contains(x) && unused_kept(c, x))
}

/// `input[k]` is kept and is the first kept finding with its crate name.
pub open spec fn first_kept(c: DepCheckView, input: Seq<OutdatedDepView>, k: int) -> bool {
    &&& 0 <= k < input.len()
    &&& outdated_kept(c, input[k])
    &&& forall|m: int|
        0 <= m < k && outdated_kept(c, #[trigger] input[m]) ==> input[m].crate_name
            != input[k].crate_name
}

/// `x` is the first kept finding with its crate name.
pub open spec fn is_first_kept(c: DepCheckView, input: Seq<OutdatedDepView>, x: OutdatedDepView) -> bool {
    exists|k: int| first_kept(c, input, k) && x == #[trigger] input[k]
}

/// Every outdated finding of `out` is the first kept raw finding of its name.
#[verifier::opaque]
pub open spec fn outdated_from_first_kept(
    c: DepCheckView,
    input: Seq<OutdatedDepView>,
    out: Seq<OutdatedDepView>,
) -> bool {
    forall|i: int| 0 <= i < out.len() ==> is_first_kept(c, input, #[trigger] out[i])
}

/// Every kept raw finding has its crate name in `out`.
#[verifier::opaque]
pub open spec fn outdated_covers_kept(
    c: DepCheckView,
    input: Seq<OutdatedDepView>,
    out: Seq<OutdatedDepView>,
) -> bool {
    forall|k: int|
        #![trigger input[k]]
        0 <= k < input.len() && outdated_kept(c, input[k]) ==> exists|i: int|
            #![trigger out[i]]
            0 <= i < out.len() && out[i].crate_name == input[k].crate_name
}

/// The outdated findings of a result, given the raw ones: for each crate
/// name among the kept findings, the first kept finding with that name, in
/// ascending name order.
pub open spec fn canonical_outdated(
    c: DepCheckView,
    input: Seq<OutdatedDepView>,
    out: Seq<OutdatedDepView>,
) -> bool {
    &&& names_sorted(out)
    &&& outdated_from_first_kept(c, input, out)
    &&& outdated_covers_kept(c, input, out)
}

/// No unused finding precedes itself.
pub proof fn lemma_unused_lt_irreflexive(a: UnusedDepView)
    ensures
        !unused_lt(a, a),
{
    lemma_seq_lt_irreflexive(a.crate_name);
}

/// Of two distinct unused findings exactly one precedes the other.
pub proof fn lemma_unused_lt_total(a: UnusedDepView, b: UnusedDepView)
    ensures
        a != b ==> (unused_lt(a, b) || unused_lt(b, a)),
        !(unused_lt(a, b) && unused_lt(b, a)),
{
    lemma_seq_lt_total(a.crate_name, b.crate_name);
    lemma_seq_lt_irreflexive(a.crate_name);
}

/// The order of unused findings is transitive.
pub proof fn lemma_unused_lt_transitive(a: UnusedDepView, b: UnusedDepView, c: UnusedDepView)
    requires
        unused_lt(a, b),
        unused_lt(b, c),
    ensures
        unused_lt(a, c),
{
    if seq_lt(a.crate_name, b.crate_name) && seq_lt(b.crate_name, c.crate_name) {
        lemma_seq_lt_transitive(a.crate_name, b.crate_name, c.crate_name);
    }
}

fn unused_lt_exec(a: &UnusedDep, b: &UnusedDep) -> (r: bool)
    ensures
        r == unused_lt(a@, b@),
{
    str_lt(a.crate_name.as_str(), b.crate_name.as_str()) || (a.crate_name == b.crate_name
        && a.kind.precedes(b.kind))
}

fn contains_name(list: &Vec<String>, name: &String) -> (r: bool)
    ensures
        r == list.deep_view().contains(name@),
{
    let n = list.len();
    let mut i: usize = 0;
    while i < n
        invariant
            n == list.len(),
            i <= n,
            forall|j: int| 0 <= j < i ==> list.deep_view()[j] != name@,
        decreases n - i,
    {
        if list[i] == *name {
            assert(list.deep_view()[i as int] == name@);
            return true;
        }
        i = i + 1;
    }
    false
}

fn meets_threshold_exec(threshold: Option<Severity>, s: Severity) -> (r: bool)
    ensures
        r == meets_threshold(threshold, s),
{
    match threshold {
        Some(t) => severity_ord(s) >= severity_ord(t),
        None => true,
    }
}

/// Insert `x` at its place in a strictly sorted list, unless it is already there.
fn insert_unused(out: &mut Vec<UnusedDep>, x: UnusedDep) -> (pos: Option<usize>)
    requires
        unused_sorted(old(out).deep_view()),
    ensures
        unused_sorted(final(out).deep_view()),
        match pos {
            Some(p) => {
                &&& p <= old(out).len()
                &&& final(out).deep_view() == old(out).deep_view().insert(p as int, x@)
                &&& forall|i: int| 0 <= i < old(out).len() ==> old(out).deep_view()[i] != x@
            },
            None => {
                &&& final(out).deep_view() == old(out).deep_view()
                &&& exists|i: int| 0 <= i < old(out).len() && old(out).deep_view()[i] == x@
            },
        },
{
    let ghost before = out.deep_view();
    let n = out.len();
    let mut p: usize = 0;
    loop
        invariant
            n == out.len(),
            out.deep_view() == before,
            p <= n,
            forall|i: int| 0 <= i < p ==> unused_lt(#[trigger] before[i], x@),
        ensures
            p <= n,
            forall|i: int| 0 <= i < p ==> unused_lt(#[trigger] before[i], x@),
            p == n || !unused_lt(before[p as int], x@),
        decreases n - p,
    {
        if p == n {
            break;
        }
        if !unused_lt_exec(&out[p], &x) {
            break;
        }
        p = p + 1;
    }
    if p < n && out[p].crate_name == x.crate_name && out[p].kind == x.kind {
        assert(before[p as int] == x@);
        return None;
    }
    proof {
        assert forall|i: int| 0 <= i < n implies before[i] != x@ by {
            if i < p {
                lemma_unused_lt_irreflexive(x@);
            } else {
                lemma_unused_lt_total(before[p as int], x@);
                if i > p {
                    lemma_unused_lt_transitive(x@, before[p as int], before[i]);
                    lemma_unused_lt_irreflexive(x@);
                }
            }
        }
        if p < n {
            lemma_unused_lt_total(before[p as int], x@);
            assert forall|j: int| p <= j < n implies unused_lt(x@, #[trigger] before[j]) by {
                if j > p {
                    lemma_unused_lt_transitive(x@, before[p as int], before[j]);
                }
            }
        }
    }
    let ghost xv = x@;
    out.insert(p, x);
    proof {
        let after = out.deep_view();
        assert(after =~= before.insert(p as int, xv));
        before.insert_ensures(p as int, xv);
        assert forall|i: int, j: int| #![trigger after[i], after[j]] 0 <= i < j < after.len() implies unused_lt(after[i], after[j]) by {
            if j < p {
            } else if j == p {
            } else if i < p {
                assert(after[j] == before[j - 1]);
                if j - 1 >= p {
                    assert(unused_lt(xv, before[j - 1]));
                    lemma_unused_lt_transitive(before[i], xv, before[j - 1]);
                }
            } else if i == p {
                assert(after[j] == before[j - 1]);
            } else {
                assert(after[i] == before[i - 1]);
                assert(after[j] == before[j - 1]);
            }
        }
    }
    Some(p)
}

/// Insert `x` at its place in a list strictly sorted by name, unless a
/// finding with the same name is already there.
fn insert_outdated(out: &mut Vec<OutdatedDep>, x: OutdatedDep) -> (pos: Option<usize>)
    requires
        names_sorted(old(out).deep_view()),
    ensures
        names_sorted(final(out).deep_view()),
        match pos {
            Some(p) => {
                &&& p <= old(out).len()
                &&& final(out).deep_view() == old(out).deep_view().insert(p as int, x@)
                &&& forall|i: int|
                    0 <= i < old(out).len() ==> old(out).deep_view()[i].crate_name != x@.crate_name
            },
            None => {
                &&& final(out).deep_view() == old(out).deep_view()
                &&& exists|i: int|
                    0 <= i < old(out).len() && old(out).deep_view()[i].crate_name
                        == x@.crate_name
            },
        },
{
    let ghost before = out.deep_view();
    let n = out.len();
    let mut p: usize = 0;
    loop
        invariant
            n == out.len(),
            out.deep_view() == before,
            p <= n,
            forall|i: int| 0 <= i < p ==> seq_lt(#[trigger] before[i].crate_name, x@.crate_name),
        ensures
            p <= n,
            forall|i: int| 0 <= i < p ==> seq_lt(#[trigger] before[i].crate_name, x@.crate_name),
            p == n || !seq_lt(before[p as int].crate_name, x@.crate_name),
        decreases n - p,
    {
        if p == n {
            break;
        }
        if !str_lt(out[p].crate_name.as_str(), x.crate_name.as_str()) {
            break;
        }
        p = p + 1;
    }
    if p < n && out[p].crate_name == x.crate_name {
        assert(before[p as int].crate_name == x@.crate_name);
        return None;
    }
    let ghost xn = x@.crate_name;
    proof {
        assert forall|i: int| 0 <= i < n implies before[i].crate_name != xn by {
            if i < p {
                lemma_seq_lt_irreflexive(xn);
            } else {
                lemma_seq_lt_total(before[p as int].crate_name, xn);
                if i > p {
                    lemma_seq_lt_transitive(xn, before[p as int].crate_name, before[i].crate_name);
                    lemma_seq_lt_irreflexive(xn);
                }
            }
        }
        if p < n {
            lemma_seq_lt_total(before[p as int].crate_name, xn);
            assert forall|j: int| p <= j < n implies seq_lt(xn, #[trigger] before[j].crate_name) by {
                if j > p {
                    lemma_seq_lt_transitive(xn, before[p as int].crate_name, before[j].crate_name);
                }
            }
        }
    }
    let ghost xv = x@;
    out.insert(p, x);
    proof {
        let after = out.deep_view();
        assert(after =~= before.insert(p as int, xv));
        before.insert_ensures(p as int, xv);
        assert forall|i: int, j: int|
            #![trigger after[i], after[j]]
            0 <= i < j < after.len() implies seq_lt(after[i].crate_name, after[j].crate_name) by {
            if j < p {
            } else if j == p {
            } else if i < p {
                assert(after[j] == before[j - 1]);
                if j - 1 >= p {
                    assert(seq_lt(xn, before[j - 1].crate_name));
                    lemma_seq_lt_transitive(before[i].crate_name, xn, before[j - 1].crate_name);
                }
            } else if i == p {
                assert(after[j] == before[j - 1]);
            } else {
                assert(after[i] == before[i - 1]);
                assert(after[j] == before[j - 1]);
            }
        }
    }
    Some(p)
}

/// After `k` raw unused findings: `out` is strictly sorted; `out[i]` is the
/// kept finding `orig[src[i]]`; each kept `orig[m]` sits at `out[at[m]]`.
pub open spec fn unused_progress(
    c: DepCheckView,
    orig: Seq<UnusedDepView>,
    k: int,
    out: Seq<UnusedDepView>,
    src: Seq<int>,
    at: Seq<int>,
) -> bool {
    &&& 0 <= k <= orig.len()
    &&& unused_sorted(out)
    &&& src.len() == out.len()
    &&& at.len() == k
    &&& forall|i: int|
        0 <= i < out.len() ==> 0 <= #[trigger] src[i] < k && unused_kept(c, orig[src[i]])
            && out[i] == orig[src[i]]
    &&& forall|m: int|
        0 <= m < k && unused_kept(c, orig[m]) ==> 0 <= #[trigger] at[m] < out.len() && out[at[m]]
            == orig[m]
}

/// Positions after inserting at `p`: those at or past `p` move one up.
pub open spec fn shift_from(at: Seq<int>, p: int) -> Seq<int> {
    Seq::new(at.len(), |m: int| if at[m] >= p { at[m] + 1 } else { at[m] })
}

proof fn lemma_unused_step_insert(
    c: DepCheckView,
    orig: Seq<UnusedDepView>,
    k: int,
    before: Seq<UnusedDepView>,
    after: Seq<UnusedDepView>,
    src: Seq<int>,
    at: Seq<int>,
    p: int,
)
    requires
        unused_progress(c, orig, k, before, src, at),
        k < orig.len(),
        unused_kept(c, orig[k]),
        unused_sorted(after),
        0 <= p <= before.len(),
        after == before.insert(p, orig[k]),
    ensures
        unused_progress(c, orig, k + 1, after, src.insert(p, k), shift_from(at, p).push(p)),
{
    before.insert_ensures(p, orig[k]);
    src.insert_ensures(p, k);
    let src2 = src.insert(p, k);
    let at2 = shift_from(at, p).push(p);
    assert forall|i: int| 0 <= i < after.len() implies 0 <= #[trigger] src2[i] < k + 1
        && unused_kept(c, orig[src2[i]]) && after[i] == orig[src2[i]] by {
        if i > p {
            assert(src2[i] == src[i - 1]);
        }
    }
    assert forall|m: int| 0 <= m < k + 1 && unused_kept(c, orig[m]) implies 0 <= #[trigger] at2[m]
        < after.len() && after[at2[m]] == orig[m] by {
        if m < k {
            if at[m] >= p {
                assert(after[at[m] + 1] == before[at[m]]);
            }
        }
    }
}

proof fn lemma_unused_step_skip(
    c: DepCheckView,
    orig: Seq<UnusedDepView>,
    k: int,
    out: Seq<UnusedDepView>,
    src: Seq<int>,
    at: Seq<int>,
    w: int,
)
    requires
        unused_progress(c, orig, k, out, src, at),
        k < orig.len(),
        unused_kept(c, orig[k]) ==> 0 <= w < out.len() && out[w] == orig[k],
    ensures
        unused_progress(c, orig, k + 1, out, src, at.push(w)),
{
    let at2 = at.push(w);
    assert forall|m: int| 0 <= m < k + 1 && unused_kept(c, orig[m]) implies 0 <= #[trigger] at2[m]
        < out.len() && out[at2[m]] == orig[m] by {
        if m < k {
            assert(at2[m] == at[m]);
        }
    }
}

proof fn lemma_unused_done(
    c: DepCheckView,
    orig: Seq<UnusedDepView>,
    out: Seq<UnusedDepView>,
    src: Seq<int>,
    at: Seq<int>,
)
    requires
        unused_progress(c, orig, orig.len() as int, out, src, at),
    ensures
        canonical_unused(c, orig, out),
{
    assert forall|x: UnusedDepView| out.contains(x) <==> (orig.contains(x) && unused_kept(c, x)) by {
        if out.contains(x) {
            let i = choose|i: int| 0 <= i < out.len() && out[i] == x;
            assert(src[i] >= 0);
            assert(orig[src[i]] == x);
        }
        if orig.contains(x) && unused_kept(c, x) {
            let m = choose|m: int| 0 <= m < orig.len() && orig[m] == x;
            assert(at[m] >= 0);
            assert(out[at[m]] == x);
        }
    }
}

/// After `k` raw outdated findings: `out` is strictly sorted by name;
/// `out[i]` is the first kept finding `orig[src[i]]` of its name; each kept
/// `orig[m]` has its name at `out[at[m]]`.
pub open spec fn outdated_progress(
    c: DepCheckView,
    orig: Seq<OutdatedDepView>,
    k: int,
    out: Seq<OutdatedDepView>,
    src: Seq<int>,
    at: Seq<int>,
) -> bool {
    &&& 0 <= k <= orig.len()
    &&& names_sorted(out)
    &&& src.len() == out.len()
    &&& at.len() == k
    &&& forall|i: int|
        0 <= i < out.len() ==> 0 <= #[trigger] src[i] < k && first_kept(c, orig, src[i]) && out[i]
            == orig[src[i]]
    &&& forall|m: int|
        0 <= m < k && outdated_kept(c, orig[m]) ==> 0 <= #[trigger] at[m] < out.len()
            && out[at[m]].crate_name == orig[m].crate_name
}

proof fn lemma_outdated_step_insert(
    c: DepCheckView,
    orig: Seq<OutdatedDepView>,
    k: int,
    before: Seq<OutdatedDepView>,
    after: Seq<OutdatedDepView>,
    src: Seq<int>,
    at: Seq<int>,
    p: int,
)
    requires
        outdated_progress(c, orig, k, before, src, at),
        k < orig.len(),
        outdated_kept(c, orig[k]),
        names_sorted(after),
        0 <= p <= before.len(),
        after == before.insert(p, orig[k]),
        forall|i: int| 0 <= i < before.len() ==> before[i].crate_name != orig[k].crate_name,
    ensures
        outdated_progress(c, orig, k + 1, after, src.insert(p, k), shift_from(at, p).push(p)),
{
    before.insert_ensures(p, orig[k]);
    src.insert_ensures(p, k);
    let src2 = src.insert(p, k);
    let at2 = shift_from(at, p).push(p);
    assert forall|m: int| 0 <= m < k && outdated_kept(c, #[trigger] orig[m]) implies orig[m].crate_name
        != orig[k].crate_name by {
        assert(before[at[m]].crate_name == orig[m].crate_name);
    }
    assert(first_kept(c, orig, k));
    assert forall|i: int| 0 <= i < after.len() implies 0 <= #[trigger] src2[i] < k + 1
        && first_kept(c, orig, src2[i]) && after[i] == orig[src2[i]] by {
        if i > p {
            assert(src2[i] == src[i - 1]);
        }
    }
    assert forall|m: int| 0 <= m < k + 1 && outdated_kept(c, orig[m]) implies 0 <= #[trigger] at2[m]
        < after.len() && after[at2[m]].crate_name == orig[m].crate_name by {
        if m < k {
            if at[m] >= p {
                assert(after[at[m] + 1] == before[at[m]]);
            }
        }
    }
}

proof fn lemma_outdated_step_skip(
    c: DepCheckView,
    orig: Seq<OutdatedDepView>,
    k: int,
    out: Seq<OutdatedDepView>,
    src: Seq<int>,
    at: Seq<int>,
    w: int,
)
    requires
        outdated_progress(c, orig, k, out, src, at),
        k < orig.len(),
        outdated_kept(c, orig[k]) ==> 0 <= w < out.len() && out[w].crate_name == orig[k].crate_name,
    ensures
        outdated_progress(c, orig, k + 1, out, src, at.push(w)),
{
    let at2 = at.push(w);
    assert forall|i: int| 0 <= i < out.len() implies 0 <= #[trigger] src[i] < k + 1 && first_kept(
        c,
        orig,
        src[i],
    ) && out[i] == orig[src[i]] by {}
    assert forall|m: int| 0 <= m < k + 1 && outdated_kept(c, orig[m]) implies 0 <= #[trigger] at2[m]
        < out.len() && out[at2[m]].crate_name == orig[m].crate_name by {
        if m < k {
            assert(at2[m] == at[m]);
        }
    }
}

proof fn lemma_outdated_done(
    c: DepCheckView,
    orig: Seq<OutdatedDepView>,
    out: Seq<OutdatedDepView>,
    src: Seq<int>,
    at: Seq<int>,
)
    requires
        outdated_progress(c, orig, orig.len() as int, out, src, at),
    ensures
        canonical_outdated(c, orig, out),
{
    reveal(outdated_from_first_kept);
    reveal(outdated_covers_kept);
    assert forall|i: int| 0 <= i < out.len() implies is_first_kept(c, orig, #[trigger] out[i]) by {
        assert(src[i] >= 0);
        assert(first_kept(c, orig, src[i]) && out[i] == orig[src[i]]);
    }
    assert forall|k: int| #![trigger orig[k]] 0 <= k < orig.len() && outdated_kept(c, orig[k]) implies exists|i: int|
        #![trigger out[i]]
        0 <= i < out.len() && out[i].crate_name == orig[k].crate_name by {
        assert(at[k] >= 0);
        assert(out[at[k]].crate_name == orig[k].crate_name);
    }
    assert(names_sorted(out));
}

impl DepCheck {
    /// Turn the raw findings of the tools into a result: findings named in
    /// the allow-list are dropped (unused ones named in the excludes too),
    /// as are those below the severity threshold; the rest are sorted by
    /// crate name (unused ones then by kind) and de-duplicated, keeping the
    /// first of each.
    pub fn finalize(&self, unused: Vec<UnusedDep>, outdated: Vec<OutdatedDep>) -> (r: DepResult)
        ensures
            r.name@ == self@.name,
            r.version@ == self@.version,
            r.scope == self@.scope,
            r.escalate_at_majors == self@.escalate_at_majors,
            canonical_unused(self@, unused.deep_view(), r.unused.deep_view()),
            canonical_outdated(self@, outdated.deep_view(), r.outdated.deep_view()),
    {
        let kept_unused = self.finalize_unused(unused);
        let kept_outdated = self.finalize_outdated(outdated);
        DepResult {
            name: self.name.clone(),
            version: self.version.clone(),
            scope: self.scope,
            unused: kept_unused,
            outdated: kept_outdated,
            escalate_at_majors: self.escalate_at_majors,
        }
    }

    fn finalize_unused(&self, unused: Vec<UnusedDep>) -> (out: Vec<UnusedDep>)
        ensures
            canonical_unused(self@, unused.deep_view(), out.deep_view()),
    {
        let ghost orig = unused.deep_view();
        let mut rest = unused;
        let mut out: Vec<UnusedDep> = Vec::new();
        let ghost mut k: int = 0;
        let ghost mut src: Seq<int> = Seq::empty();
        let ghost mut at: Seq<int> = Seq::empty();
        proof {
            assert(orig.skip(0) =~= orig);
            assert(out.deep_view() =~= Seq::<UnusedDepView>::empty());
        }
        while rest.len() > 0
            invariant
                0 <= k <= orig.len(),
                rest.deep_view() =~= orig.skip(k),
                unused_progress(self@, orig, k, out.deep_view(), src, at),
            decreases rest.len(),
        {
            let ghost before = out.deep_view();
            let ghost rest_before = rest.deep_view();
            proof {
                assert(rest_before.len() > 0);
                assert(rest_before[0] == orig[k]);
            }
            let ghost rest_raw = rest@;
            let x = rest.remove(0);
            proof {
                assert(x@ == rest_before[0]);
                assert forall|i: int| 0 <= i < rest.len() implies rest.deep_view()[i] == rest_before[i
                    + 1] by {
                    assert(rest@[i] == rest_raw[i + 1]);
                }
                assert(rest.deep_view() =~= orig.skip(k + 1));
            }
            let kept = !contains_name(&self.allow_list, &x.crate_name) && !contains_name(
                &self.excludes,
                &x.crate_name,
            ) && meets_threshold_exec(self.severity_threshold, Severity::Warning);
            if kept {
                let pos = insert_unused(&mut out, x);
                match pos {
                    Some(p) => {
                        proof {
                            lemma_unused_step_insert(self@, orig, k, before, out.deep_view(), src, at, p as int);
                            src = src.insert(p as int, k);
                            at = shift_from(at, p as int).push(p as int);
                        }
                    },
                    None => {
                        proof {
                            let w = choose|w: int| 0 <= w < before.len() && before[w] == orig[k];
                            lemma_unused_step_skip(self@, orig, k, before, src, at, w);
                            at = at.push(w);
                        }
                    },
                }
            } else {
                proof {
                    lemma_unused_step_skip(self@, orig, k, before, src, at, 0);
                    at = at.push(0);
                }
            }
            proof {
                k = k + 1;
            }
        }
        proof {
            lemma_unused_done(self@, orig, out.deep_view(), src, at);
        }
        out
    }

    fn finalize_outdated(&self, outdated: Vec<OutdatedDep>) -> (out: Vec<OutdatedDep>)
        ensures
            canonical_outdated(self@, outdated.deep_view(), out.deep_view()),
    {
        let ghost orig = outdated.deep_view();
        let mut rest = outdated;
        let mut out: Vec<OutdatedDep> = Vec::new();
        let ghost mut k: int = 0;
        let ghost mut src: Seq<int> = Seq::empty();
        let ghost mut at: Seq<int> = Seq::empty();
        proof {
            assert(orig.skip(0) =~= orig);
            assert(out.deep_view() =~= Seq::<OutdatedDepView>::empty());
        }
        while rest.len() > 0
            invariant
                0 <= k <= orig.len(),
                rest.deep_view() =~= orig.skip(k),
                outdated_progress(self@, orig, k, out.deep_view(), src, at),
            decreases rest.len(),
        {
            let ghost before = out.deep_view();
            let ghost rest_before = rest.deep_view();
            proof {
                assert(rest_before.len() > 0);
                assert(rest_before[0] == orig[k]);
            }
            let ghost rest_raw = rest@;
            let x = rest.remove(0);
            proof {
                assert(x@ == rest_before[0]);
                assert forall|i: int| 0 <= i < rest.len() implies rest.deep_view()[i] == rest_before[i
                    + 1] by {
                    assert(rest@[i] == rest_raw[i + 1]);
                }
                assert(rest.deep_view() =~= orig.skip(k + 1));
            }
            let sev = x.severity(self.escalate_at_majors);
            let kept = !contains_name(&self.allow_list, &x.crate_name) && meets_threshold_exec(
                self.severity_threshold,
                sev,
            );
            if kept {
                let pos = insert_outdated(&mut out, x);
                match pos {
                    Some(p) => {
                        proof {
                            lemma_outdated_step_insert(self@, orig, k, before, out.deep_view(), src, at, p as int);
                            src = src.insert(p as int, k);
                            at = shift_from(at, p as int).push(p as int);
                        }
                    },
                    None => {
                        proof {
                            let w = choose|w: int|
                                0 <= w < before.len() && before[w].crate_name == orig[k].crate_name;
                            lemma_outdated_step_skip(self@, orig, k, before, src, at, w);
                            at = at.push(w);
                        }
                    },
                }
            } else {
                proof {
                    lemma_outdated_step_skip(self@, orig, k, before, src, at, 0);
                    at = at.push(0);
                }
            }
            proof {
                k = k + 1;
            }
        }
        proof {
            lemma_outdated_done(self@, orig, out.deep_view(), src, at);
        }
        out
    }
}

impl DepCheck {
    /// Begin a new dependency check of the given subject, covering both
    /// scanners, with no allow-list, excludes, threshold or escalation.
    pub fn new(name: &str, version: &str) -> (c: Self)
        ensures
            c@ == (DepCheckView {
                name: name@,
                version: version@,
                scope: DepScope::All,
                workdir: None,
                workspace: false,
                excludes: Seq::empty(),
                allow_list: Seq::empty(),
                severity_threshold: None,
                escalate_at_majors: None,
            }),
    {
        let c = DepCheck {
            name: name.to_owned(),
            version: version.to_owned(),
            scope: DepScope::All,
            workdir: None,
            workspace: false,
            excludes: Vec::new(),
            allow_list: Vec::new(),
            severity_threshold: None,
            escalate_at_majors: None,
        };
        assert(c.excludes.deep_view() =~= Seq::empty());
        assert(c.allow_list.deep_view() =~= Seq::empty());
        c
    }

    /// Pick which checks to run. Defaults to [`DepScope::All`].
    pub fn scope(self, scope: DepScope) -> (c: Self)
        ensures
            c@ == (DepCheckView { scope, ..self@ }),
    {
        let mut c = self;
        c.scope = scope;
        c
    }

    /// Selected scope.
    pub fn dep_scope(&self) -> (s: DepScope)
        ensures
            s == self@.scope,
    {
        self.scope
    }

    /// Run the subprocesses from `dir` instead of the current directory.
    pub fn in_dir(self, dir: &str) -> (c: Self)
        ensures
            c@ == (DepCheckView { workdir: Some(dir@), ..self@ }),
    {
        let mut c = self;
        c.workdir = Some(dir.to_owned());
        c
    }

    /// Pass `--workspace` so every workspace member is checked.
    pub fn workspace(self) -> (c: Self)
        ensures
            c@ == (DepCheckView { workspace: true, ..self@ }),
    {
        let mut c = self;
        c.workspace = true;
        c
    }

    /// Exclude a crate from both scanners. May be called multiple times.
    pub fn exclude(self, pattern: &str) -> (c: Self)
        ensures
            c@ == (DepCheckView { excludes: self@.excludes.push(pattern@), ..self@ }),
    {
        let mut c = self;
        c.excludes.push(pattern.to_owned());
        assert(c.excludes.deep_view() =~= self@.excludes.push(pattern@));
        c
    }

    /// Suppress findings against a specific crate name. Matches both
    /// unused and outdated findings on `crate_name`.
    pub fn allow(self, crate_name: &str) -> (c: Self)
        ensures
            c@ == with_allowed(self@, crate_name@),
    {
        let mut c = self;
        c.allow_list.push(crate_name.to_owned());
        assert(c.allow_list.deep_view() =~= self@.allow_list.push(crate_name@));
        c
    }

    /// Bulk version of [`allow`](Self::allow).
    pub fn allow_all<const N: usize>(self, names: [&str; N]) -> (c: Self)
        ensures
            c@ == (DepCheckView {
                allow_list: self@.allow_list + names@.map_values(|s: &str| s@),
                ..self@
            }),
            c@ == with_each_allowed(self@, names@.map_values(|s: &str| s@)),
    {
        broadcast use vstd::array::array_len_matches_n;

        let ghost start = self@;
        let mut c = self;
        let mut i: usize = 0;
        assert(c.allow_list.deep_view() =~= start.allow_list + names@.take(0).map_values(
            |s: &str| s@,
        ));
        while i < N
            invariant
                names@.len() == N,
                i <= N,
                c@ == (DepCheckView {
                    allow_list: start.allow_list + names@.take(i as int).map_values(|s: &str| s@),
                    ..start
                }),
            decreases N - i,
        {
            let ghost before = c.allow_list.deep_view();
            c.allow_list.push(names[i].to_owned());
            assert(names@.take(i + 1).map_values(|s: &str| s@) =~= names@.take(i as int).map_values(
                |s: &str| s@,
            ).push(names@[i as int]@));
            assert(c.allow_list.deep_view() =~= before.push(names@[i as int]@));
            i = i + 1;
        }
        assert(names@.take(N as int) =~= names@);
        proof {
            crate::laws::lemma_allow_all_is_chain_of_allow(start, names@.map_values(|s: &str| s@));
        }
        c
    }

    /// Discard findings whose severity is *below* `threshold`. Findings
    /// at or above the threshold are kept.
    pub fn severity_threshold(self, threshold: Severity) -> (c: Self)
        ensures
            c@ == (DepCheckView { severity_threshold: Some(threshold), ..self@ }),
    {
        let mut c = self;
        c.severity_threshold = Some(threshold);
        c
    }

    /// Escalate outdated findings to a *failing* check when the crate
    /// is at least `n` major versions behind.
    pub fn escalate_at_majors(self, n: u32) -> (c: Self)
        ensures
            c@ == (DepCheckView { escalate_at_majors: Some(n), ..self@ }),
    {
        let mut c = self;
        c.escalate_at_majors = Some(n);
        c
    }

    /// Subject name passed in via [`new`](Self::new).
    pub fn subject(&self) -> (s: &str)
        ensures
            s@ == self@.name,
    {
        self.name.as_str()
    }

    /// Subject version passed in via [`new`](Self::new).
    pub fn subject_version(&self) -> (s: &str)
        ensures
            s@ == self@.version,
    {
        self.version.as_str()
    }

    /// The directory the scanners run from, if one was set.
    pub fn working_dir(&self) -> (d: Option<&str>)
        ensures
            match d {
                Some(s) => self@.workdir == Some(s@),
                None => self@.workdir is None,
            },
    {
        match &self.workdir {
            Some(s) => Some(s.as_str()),
            None => None,
        }
    }
    /// The arguments given to `cargo` to run the unused-dependency scanner.
    pub fn udeps_args(&self) -> (a: Vec<String>)
        ensures
            a.deep_view() == crate::udeps::spec_command_args(self@.workspace),
    {
        crate::udeps::command_args(self.workspace)
    }

    /// The arguments given to `cargo` to run the outdated-version scanner.
    pub fn outdated_args(&self) -> (a: Vec<String>)
        ensures
            a.deep_view() == crate::outdated::spec_command_args(self@.workspace, self@.excludes),
    {
        crate::outdated::command_args(self.workspace, &self.excludes)
    }
}

} // verus!
