//! The order of a report: worst first.
use vstd::prelude::*;

use crate::model::{Finding, FindingView, Severity};

verus! {

/// The findings of one severity, in the order in which they were made.
pub open spec fn of_severity(s: Seq<FindingView>, severity: Severity) -> Seq<FindingView>
    decreases s.len(),
{
    if s.len() == 0 {
        seq![]
    } else if s[0].severity == severity {
        seq![s[0]] + of_severity(s.drop_first(), severity)
    } else {
        of_severity(s.drop_first(), severity)
    }
}

/// The findings with the worst in front; those of one severity keep their order.
pub open spec fn worst_first(s: Seq<FindingView>) -> Seq<FindingView> {
    of_severity(s, Severity::Critical) + of_severity(s, Severity::Problem) + of_severity(
        s,
        Severity::Watch,
    ) + of_severity(s, Severity::Fine)
}

/// No finding is followed by a worse one.
pub open spec fn is_worst_first(s: Seq<FindingView>) -> bool {
    forall|i: int, j: int|
        0 <= i < j < s.len() ==> (#[trigger] s[i]).severity.level() >= (#[trigger] s[j]).severity.level()
}

/// Worst first: the buyer should see deal-breakers without scrolling.
pub fn sorted(findings: Vec<Finding>) -> (r: Vec<Finding>)
    ensures
        r.deep_view() == worst_first(findings.deep_view()),
{
    let ghost all = findings.deep_view();
    let mut findings = findings;
    let mut critical: Vec<Finding> = Vec::new();
    let mut problem: Vec<Finding> = Vec::new();
    let mut watch: Vec<Finding> = Vec::new();
    let mut fine: Vec<Finding> = Vec::new();
    assert(findings.deep_view() == all.take(all.len() as int));
    assert(all.skip(all.len() as int) == Seq::<FindingView>::empty());
    while findings.len() > 0
        invariant
            findings.len() <= all.len(),
            findings.deep_view() == all.take(findings.len() as int),
            critical.deep_view() == of_severity(all.skip(findings.len() as int), Severity::Critical),
            problem.deep_view() == of_severity(all.skip(findings.len() as int), Severity::Problem),
            watch.deep_view() == of_severity(all.skip(findings.len() as int), Severity::Watch),
            fine.deep_view() == of_severity(all.skip(findings.len() as int), Severity::Fine),
        decreases findings.len(),
    {
        let ghost n = findings.len() as int;
        let ghost before = findings.deep_view();
        proof {
            assert(before[n - 1] == all[n - 1]);
            assert(all.skip(n - 1)[0] == all[n - 1]);
            assert(all.skip(n - 1).drop_first() == all.skip(n));
            assert(all.take(n).drop_last() == all.take(n - 1));
        }
        match findings.pop() {
            Some(f) => {
                assert(findings.deep_view() == before.drop_last());
                assert(f.deep_view() == all[n - 1]);
                let ghost seen = f.deep_view();
                match f.severity {
                    Severity::Critical => {
                        let ghost kept = critical.deep_view();
                        critical.insert(0, f);
                        assert(critical.deep_view() == seq![seen] + kept);
                    },
                    Severity::Problem => {
                        let ghost kept = problem.deep_view();
                        problem.insert(0, f);
                        assert(problem.deep_view() == seq![seen] + kept);
                    },
                    Severity::Watch => {
                        let ghost kept = watch.deep_view();
                        watch.insert(0, f);
                        assert(watch.deep_view() == seq![seen] + kept);
                    },
                    Severity::Fine => {
                        let ghost kept = fine.deep_view();
                        fine.insert(0, f);
                        assert(fine.deep_view() == seq![seen] + kept);
                    },
                }
            },
            None => {},
        }
    }
    assert(all.skip(0) == all);
    let ghost c = critical.deep_view();
    let ghost p = problem.deep_view();
    let ghost w = watch.deep_view();
    let ghost f = fine.deep_view();
    let mut out = critical;
    out.append(&mut problem);
    assert(out.deep_view() == c + p);
    out.append(&mut watch);
    assert(out.deep_view() == c + p + w);
    out.append(&mut fine);
    assert(out.deep_view() == c + p + w + f);
    out
}

/// Append findings to a report under construction.
pub fn extend(out: &mut Vec<Finding>, more: Vec<Finding>)
    ensures
        final(out).deep_view() == old(out).deep_view() + more.deep_view(),
{
    let mut more = more;
    out.append(&mut more);
}

/// The findings of one severity are of that severity, and are among the findings.
pub proof fn picked_findings_fit(s: Seq<FindingView>, severity: Severity)
    ensures
        forall|i: int|
            0 <= i < of_severity(s, severity).len() ==> (#[trigger] of_severity(s, severity)[i]).severity
                == severity,
        forall|i: int|
            0 <= i < of_severity(s, severity).len() ==> s.contains(
                #[trigger] of_severity(s, severity)[i],
            ),
    decreases s.len(),
{
    if s.len() > 0 {
        picked_findings_fit(s.drop_first(), severity);
        let rest = of_severity(s.drop_first(), severity);
        assert forall|i: int| 0 <= i < of_severity(s, severity).len() implies {
            &&& (#[trigger] of_severity(s, severity)[i]).severity == severity
            &&& s.contains(of_severity(s, severity)[i])
        } by {
            if s[0].severity == severity {
                if i == 0 {
                    assert(of_severity(s, severity)[0] == s[0]);
                } else {
                    assert(of_severity(s, severity)[i] == rest[i - 1]);
                    let k = choose|k: int| 0 <= k < s.drop_first().len() && s.drop_first()[k] == rest[i - 1];
                    assert(s.drop_first().contains(rest[i - 1]));
                    assert(s[k + 1] == rest[i - 1]);
                }
            } else {
                assert(of_severity(s, severity)[i] == rest[i]);
                assert(s.drop_first().contains(rest[i]));
                let k = choose|k: int| 0 <= k < s.drop_first().len() && s.drop_first()[k] == rest[i];
                assert(s[k + 1] == rest[i]);
            }
        }
    }
}

/// A report is ordered worst first.
pub proof fn a_report_is_worst_first(s: Seq<FindingView>)
    ensures
        is_worst_first(worst_first(s)),
{
    let r = worst_first(s);
    assert forall|i: int, j: int| 0 <= i < j < r.len() implies (#[trigger] r[i]).severity.level() >= (
    #[trigger] r[j]).severity.level() by {
        level_at(s, i);
        level_at(s, j);
    }
}

/// The severity at each place of an ordered report.
proof fn level_at(s: Seq<FindingView>, i: int)
    requires
        0 <= i < worst_first(s).len(),
    ensures
        ({
            let c = of_severity(s, Severity::Critical).len();
            let p = of_severity(s, Severity::Problem).len();
            let w = of_severity(s, Severity::Watch).len();
            worst_first(s)[i].severity.level() == (if i < c {
                3int
            } else if i < c + p {
                2
            } else if i < c + p + w {
                1
            } else {
                0
            })
        }),
{
    picked_findings_fit(s, Severity::Critical);
    picked_findings_fit(s, Severity::Problem);
    picked_findings_fit(s, Severity::Watch);
    picked_findings_fit(s, Severity::Fine);
    let c = of_severity(s, Severity::Critical);
    let p = of_severity(s, Severity::Problem);
    let w = of_severity(s, Severity::Watch);
    let f = of_severity(s, Severity::Fine);
    if i < c.len() {
        assert(worst_first(s)[i] == c[i]);
    } else if i < c.len() + p.len() {
        assert(worst_first(s)[i] == p[i - c.len()]);
    } else if i < c.len() + p.len() + w.len() {
        assert(worst_first(s)[i] == w[i - c.len() - p.len()]);
    } else {
        assert(worst_first(s)[i] == f[i - c.len() - p.len() - w.len()]);
    }
}

/// Ordering a report neither loses, adds nor changes a finding.
pub proof fn ordering_keeps_every_finding(s: Seq<FindingView>)
    ensures
        worst_first(s).to_multiset() == s.to_multiset(),
        worst_first(s).len() == s.len(),
    decreases s.len(),
{
    broadcast use vstd::seq_lib::group_to_multiset_ensures;

    let c = of_severity(s, Severity::Critical);
    let p = of_severity(s, Severity::Problem);
    let w = of_severity(s, Severity::Watch);
    let f = of_severity(s, Severity::Fine);
    vstd::seq_lib::lemma_multiset_commutative(c, p);
    vstd::seq_lib::lemma_multiset_commutative(c + p, w);
    vstd::seq_lib::lemma_multiset_commutative(c + p + w, f);
    if s.len() == 0 {
        assert(worst_first(s) == s);
    } else {
        let t = s.drop_first();
        ordering_keeps_every_finding(t);
        let tc = of_severity(t, Severity::Critical);
        let tp = of_severity(t, Severity::Problem);
        let tw = of_severity(t, Severity::Watch);
        let tf = of_severity(t, Severity::Fine);
        vstd::seq_lib::lemma_multiset_commutative(tc, tp);
        vstd::seq_lib::lemma_multiset_commutative(tc + tp, tw);
        vstd::seq_lib::lemma_multiset_commutative(tc + tp + tw, tf);
        let one = seq![s[0]];
        vstd::seq_lib::lemma_multiset_commutative(one, t);
        vstd::seq_lib::lemma_multiset_commutative(one, tc);
        vstd::seq_lib::lemma_multiset_commutative(one, tp);
        vstd::seq_lib::lemma_multiset_commutative(one, tw);
        vstd::seq_lib::lemma_multiset_commutative(one, tf);
        assert(s == one + t);
        assert(worst_first(s).to_multiset() == s.to_multiset());
    }
}

/// Ordering is stable: the findings of one severity stay in the order in which they were
/// made.
pub proof fn ordering_is_stable(s: Seq<FindingView>, severity: Severity)
    ensures
        of_severity(worst_first(s), severity) == of_severity(s, severity),
{
    let c = of_severity(s, Severity::Critical);
    let p = of_severity(s, Severity::Problem);
    let w = of_severity(s, Severity::Watch);
    let f = of_severity(s, Severity::Fine);
    picking_splits(c + p + w, f, severity);
    picking_splits(c + p, w, severity);
    picking_splits(c, p, severity);
    picking_twice(s, Severity::Critical, severity);
    picking_twice(s, Severity::Problem, severity);
    picking_twice(s, Severity::Watch, severity);
    picking_twice(s, Severity::Fine, severity);
    assert(of_severity(worst_first(s), severity) == of_severity(s, severity));
}

/// The findings of one severity in two lists are those of the first, then of the second.
pub proof fn picking_splits(a: Seq<FindingView>, b: Seq<FindingView>, severity: Severity)
    ensures
        of_severity(a + b, severity) == of_severity(a, severity) + of_severity(b, severity),
    decreases a.len(),
{
    if a.len() == 0 {
        assert(a + b == b);
    } else {
        picking_splits(a.drop_first(), b, severity);
        assert((a + b).drop_first() == a.drop_first() + b);
        assert(of_severity(a + b, severity) == of_severity(a, severity) + of_severity(b, severity));
    }
}

/// Picking out of what was picked keeps all of it, or nothing.
proof fn picking_twice(s: Seq<FindingView>, first: Severity, second: Severity)
    ensures
        of_severity(of_severity(s, first), second) == if first == second {
            of_severity(s, first)
        } else {
            seq![]
        },
    decreases s.len(),
{
    if s.len() > 0 {
        picking_twice(s.drop_first(), first, second);
        if s[0].severity == first {
            assert(of_severity(s, first).drop_first() == of_severity(s.drop_first(), first));
        }
    }
}

/// How many findings of a report have an id.
pub open spec fn count_id(s: Seq<FindingView>, id: Seq<char>) -> nat
    decreases s.len(),
{
    if s.len() == 0 {
        0
    } else {
        count_id(s.drop_first(), id) + (if s[0].id == id {
            1nat
        } else {
            0
        })
    }
}

/// The findings with an id in two lists are those in the first and those in the second.
pub proof fn counts_add_up(a: Seq<FindingView>, b: Seq<FindingView>, id: Seq<char>)
    ensures
        count_id(a + b, id) == count_id(a, id) + count_id(b, id),
    decreases a.len(),
{
    if a.len() == 0 {
        assert(a + b == b);
    } else {
        counts_add_up(a.drop_first(), b, id);
        assert((a + b).drop_first() == a.drop_first() + b);
    }
}

proof fn picking_counts(s: Seq<FindingView>, id: Seq<char>)
    ensures
        count_id(of_severity(s, Severity::Critical), id) + count_id(
            of_severity(s, Severity::Problem),
            id,
        ) + count_id(of_severity(s, Severity::Watch), id) + count_id(
            of_severity(s, Severity::Fine),
            id,
        ) == count_id(s, id),
    decreases s.len(),
{
    if s.len() > 0 {
        picking_counts(s.drop_first(), id);
        let all = of_severity(s, s[0].severity);
        assert(all.drop_first() == of_severity(s.drop_first(), s[0].severity));
    }
}

/// A report holds exactly the findings that were made: as many of each id, and each of them.
pub proof fn ordering_keeps_ids(s: Seq<FindingView>, id: Seq<char>, f: FindingView)
    ensures
        count_id(worst_first(s), id) == count_id(s, id),
        worst_first(s).len() == s.len(),
        worst_first(s).contains(f) <==> s.contains(f),
{
    let c = of_severity(s, Severity::Critical);
    let p = of_severity(s, Severity::Problem);
    let w = of_severity(s, Severity::Watch);
    let fine = of_severity(s, Severity::Fine);
    picking_counts(s, id);
    counts_add_up(c + p + w, fine, id);
    counts_add_up(c + p, w, id);
    counts_add_up(c, p, id);
    ordering_keeps_every_finding(s);
    broadcast use vstd::seq_lib::group_to_multiset_ensures;
    s.to_multiset_ensures();
    worst_first(s).to_multiset_ensures();
    assert(s.contains(f) <==> s.to_multiset().count(f) > 0);
    assert(worst_first(s).contains(f) <==> worst_first(s).to_multiset().count(f) > 0);
}

/// Ordering an ordered report changes nothing.
pub proof fn ordering_twice_is_ordering_once(s: Seq<FindingView>)
    ensures
        worst_first(worst_first(s)) == worst_first(s),
{
    ordering_is_stable(s, Severity::Critical);
    ordering_is_stable(s, Severity::Problem);
    ordering_is_stable(s, Severity::Watch);
    ordering_is_stable(s, Severity::Fine);
}

} // verus!
