//! What holds of every execution: laws that relate a suite, the cases in it
//! and the reports that executing it can give.

use vstd::prelude::*;
use crate::case::{
    AnyCase, TestCase, always_fails, case_ran, deterministic, is_simple_case, is_unary_case, never_fails,
    outcome_of,
};
use crate::report::{CaseReport, SuiteReport, names, passes};
use crate::suite::{Suite, cases_ran, names_in_order, reports_before, total_arity};

verus! {

/// Running cases one after the other gives as many reports as the cases
/// have invocations between them.
pub proof fn lemma_report_count(cases: Seq<AnyCase>, reports: Seq<CaseReport>)
    requires
        cases_ran(cases, reports),
    ensures
        reports.len() == total_arity(cases),
    decreases cases.len(),
{
    if cases.len() > 0 {
        let before = reports.len() - cases.last().arity();
        lemma_report_count(cases.drop_last(), reports.take(before));
    }
}

/// What was reported while the first `k` cases ran is what running those
/// `k` cases alone can give.
pub proof fn lemma_first_cases_ran(cases: Seq<AnyCase>, reports: Seq<CaseReport>, k: int)
    requires
        cases_ran(cases, reports),
        0 <= k <= cases.len(),
    ensures
        reports_before(cases, k) <= reports.len(),
        cases_ran(cases.take(k), reports.take(reports_before(cases, k))),
    decreases cases.len(),
{
    if k == cases.len() {
        assert(cases.take(k) =~= cases);
        lemma_report_count(cases, reports);
        assert(reports.take(reports.len() as int) =~= reports);
    } else {
        let before = reports.len() - cases.last().arity();
        let earlier = reports.take(before);
        lemma_first_cases_ran(cases.drop_last(), earlier, k);
        assert(cases.drop_last().take(k) =~= cases.take(k));
        assert(earlier.take(reports_before(cases, k)) =~= reports.take(reports_before(cases, k)));
    }
}

/// Isolation: in the reports of a suite's own cases, every case has the
/// reports of its own run, one per invocation, at the place that the cases
/// before it leave, whatever the other cases did.
pub proof fn lemma_each_case_reported(cases: Seq<AnyCase>, reports: Seq<CaseReport>, k: int)
    requires
        cases_ran(cases, reports),
        0 <= k < cases.len(),
    ensures
        reports_before(cases, k + 1) == reports_before(cases, k) + cases[k].arity(),
        reports_before(cases, k + 1) <= reports.len(),
        case_ran(&cases[k], reports.subrange(reports_before(cases, k), reports_before(cases, k + 1))),
{
    lemma_first_cases_ran(cases, reports, k + 1);
    let upto = cases.take(k + 1);
    let end = reports_before(cases, k + 1);
    let start = end - cases[k].arity();
    assert(upto.drop_last() =~= cases.take(k));
    lemma_report_count(upto.drop_last(), reports.take(end).take(start));
    assert(reports.take(end).skip(start) =~= reports.subrange(start, end));
}

/// Isolation: where a case that always fails stands before a case that
/// never fails, both are reported, the first as failed and the second as
/// passed. The failure neither stops the second case nor changes its
/// outcome.
pub proof fn lemma_failure_leaves_the_next_case_alone(
    failing: AnyCase,
    passing: AnyCase,
    reports: Seq<CaseReport>,
)
    requires
        always_fails(&failing),
        never_fails(&passing),
        failing.arity() == 1,
        passing.arity() == 1,
        cases_ran(seq![failing, passing], reports),
    ensures
        reports.len() == 2,
        reports[0].is_failure_of(failing.name()),
        reports[1] == passes(passing.name(), 1)[0],
{
    let cases = seq![failing, passing];
    lemma_each_case_reported(cases, reports, 0);
    lemma_each_case_reported(cases, reports, 1);
    lemma_report_count(cases, reports);
    assert(reports.subrange(0, 1)[0] == reports[0]);
    assert(reports.subrange(1, 2)[0] == reports[1]);
}

/// Every report that running cases gives is well formed.
pub proof fn lemma_case_reports_well_formed(cases: Seq<AnyCase>, reports: Seq<CaseReport>)
    requires
        cases_ran(cases, reports),
    ensures
        forall|i: int| 0 <= i < reports.len() ==> (#[trigger] reports[i]).outcome.well_formed(),
    decreases cases.len(),
{
    if cases.len() > 0 {
        let before = reports.len() - cases.last().arity();
        let earlier = reports.take(before);
        lemma_case_reports_well_formed(cases.drop_last(), earlier);
        assert forall|i: int| 0 <= i < reports.len() implies (#[trigger] reports[i]).outcome.well_formed() by {
            if i < before {
                assert(earlier[i] == reports[i]);
            } else {
                assert(reports.skip(before)[i - before] == reports[i]);
            }
        }
    }
}

/// Every report tree that executing a suite gives is well formed: no
/// failure in it is without a reason.
pub proof fn lemma_report_well_formed(suite: Suite, report: SuiteReport)
    requires
        suite.ran(report),
    ensures
        report.well_formed(),
    decreases suite,
{
    lemma_case_reports_well_formed(suite.cases, report.cases);
    assert forall|j: int| 0 <= j < report.suites.len() implies (#[trigger] report.suites[j]).well_formed() by {
        lemma_report_well_formed(suite.suites[j], report.suites[j]);
    }
}

/// Order: the reports of a suite's own cases carry the cases' names in
/// declaration order, each name once per invocation of its case.
pub proof fn lemma_case_reports_in_order(cases: Seq<AnyCase>, reports: Seq<CaseReport>)
    requires
        cases_ran(cases, reports),
    ensures
        names(reports) == names_in_order(cases),
    decreases cases.len(),
{
    if cases.len() > 0 {
        let before = reports.len() - cases.last().arity();
        let earlier = reports.take(before);
        lemma_case_reports_in_order(cases.drop_last(), earlier);
        let last_names = Seq::new(cases.last().arity(), |i: int| cases.last().name());
        assert forall|i: int| 0 <= i < reports.len() implies names(reports)[i] == (names(earlier)
            + last_names)[i] by {
            if i >= before {
                assert(reports.skip(before)[i - before] == reports[i]);
            }
        }
    }
    assert(names(reports) =~= names_in_order(cases));
}

/// Order: the reports of the nested suites stand in the order in which the
/// suite declares them, each under the name of its suite.
pub proof fn lemma_suite_reports_in_order(suite: Suite, report: SuiteReport)
    requires
        suite.ran(report),
    ensures
        report.name == suite.name,
        report.suites.len() == suite.suites.len(),
        forall|j: int|
            0 <= j < suite.suites.len() ==> (#[trigger] report.suites[j]).name == suite.suites[j].name,
{
    assert forall|j: int| 0 <= j < suite.suites.len() implies (#[trigger] report.suites[j]).name
        == suite.suites[j].name by {
        assert(suite.suites[j].ran(report.suites[j]));
    }
}

/// A suite with no cases and no nested suites succeeds: its report holds
/// nothing but its name.
pub proof fn lemma_empty_suite_succeeds(suite: Suite, report: SuiteReport)
    requires
        suite.cases.len() == 0,
        suite.suites.len() == 0,
        suite.ran(report),
    ensures
        report.succeeded(),
        report == (SuiteReport { name: suite.name, cases: Seq::empty(), suites: Seq::empty() }),
{
    assert(report.cases =~= Seq::empty());
    assert(report.suites =~= Seq::empty());
}

/// A case that never fails is reported as passed, once per invocation.
pub proof fn lemma_passing_case_reports(case: AnyCase, reports: Seq<CaseReport>)
    requires
        never_fails(&case),
        case_ran(&case, reports),
    ensures
        reports == passes(case.name(), case.arity()),
{
    assert(reports =~= passes(case.name(), case.arity()));
}

/// A case whose body never fails is reported as passed, once.
pub proof fn lemma_body_that_never_fails<F: Fn() -> Result<(), String>>(
    case: AnyCase,
    name: Seq<char>,
    func: F,
    reports: Seq<CaseReport>,
)
    requires
        is_simple_case(&case, name, func),
        forall|verdict: Result<(), String>| #[trigger] call_ensures(func, (), verdict) ==> verdict is Ok,
        case_ran(&case, reports),
    ensures
        never_fails(&case),
        reports == passes(name, 1),
{
    assert(reports =~= passes(name, 1));
}

/// A parameterized case whose body fails on none of the arguments is
/// reported as passed, once per argument.
pub proof fn lemma_unary_body_that_never_fails<F: Fn(u32) -> Result<(), String>>(
    case: AnyCase,
    name: Seq<char>,
    func: F,
    args: Seq<u32>,
    reports: Seq<CaseReport>,
)
    requires
        is_unary_case(&case, name, func, args),
        forall|i: int, verdict: Result<(), String>|
            0 <= i < args.len() && #[trigger] call_ensures(func, (args[i],), verdict) ==> verdict is Ok,
        case_ran(&case, reports),
    ensures
        never_fails(&case),
        reports == passes(name, args.len()),
{
    assert(reports =~= passes(name, args.len()));
}

/// Where none of the cases can fail, every report is a pass.
pub proof fn lemma_passing_cases_pass(cases: Seq<AnyCase>, reports: Seq<CaseReport>)
    requires
        cases_ran(cases, reports),
        forall|k: int| 0 <= k < cases.len() ==> never_fails(&#[trigger] cases[k]),
    ensures
        forall|i: int| 0 <= i < reports.len() ==> (#[trigger] reports[i]).outcome is Pass,
    decreases cases.len(),
{
    if cases.len() > 0 {
        let before = reports.len() - cases.last().arity();
        let earlier = reports.take(before);
        assert forall|k: int| 0 <= k < cases.drop_last().len() implies never_fails(
            &#[trigger] cases.drop_last()[k],
        ) by {
            assert(cases.drop_last()[k] == cases[k]);
        }
        lemma_passing_cases_pass(cases.drop_last(), earlier);
        assert(never_fails(&cases[cases.len() - 1]));
        assert forall|i: int| 0 <= i < reports.len() implies (#[trigger] reports[i]).outcome is Pass by {
            if i < before {
                assert(earlier[i] == reports[i]);
            } else {
                assert(reports.skip(before)[i - before] == reports[i]);
            }
        }
    }
}

/// A suite in which no case can fail, at any depth, succeeds.
pub proof fn lemma_passing_suite_succeeds(suite: Suite, report: SuiteReport)
    requires
        suite.never_fails(),
        suite.ran(report),
    ensures
        report.succeeded(),
    decreases suite,
{
    lemma_passing_cases_pass(suite.cases, report.cases);
    assert forall|j: int| 0 <= j < report.suites.len() implies (#[trigger] report.suites[j]).succeeded() by {
        lemma_passing_suite_succeeds(suite.suites[j], report.suites[j]);
    }
}

/// A case that always fails and is invoked at least once is reported as
/// failed, once per invocation, each time with a reason that is not empty.
pub proof fn lemma_failing_case_reports(case: AnyCase, reports: Seq<CaseReport>)
    requires
        always_fails(&case),
        case.arity() > 0,
        case_ran(&case, reports),
    ensures
        reports.len() == case.arity(),
        forall|i: int| 0 <= i < reports.len() ==> (#[trigger] reports[i]).is_failure_of(case.name()),
{
}

/// A case whose body always fails is reported as failed, once, with a
/// reason that is not empty: the body's message, or the placeholder where
/// the body gave none.
pub proof fn lemma_body_that_always_fails<F: Fn() -> Result<(), String>>(
    case: AnyCase,
    name: Seq<char>,
    func: F,
    reports: Seq<CaseReport>,
)
    requires
        is_simple_case(&case, name, func),
        forall|verdict: Result<(), String>| #[trigger] call_ensures(func, (), verdict) ==> verdict is Err,
        case_ran(&case, reports),
    ensures
        always_fails(&case),
        reports.len() == 1,
        reports[0].is_failure_of(name),
        exists|verdict: Result<(), String>| #[trigger]
            call_ensures(func, (), verdict) && reports[0].outcome == outcome_of(verdict),
{
}

/// A parameterized case whose body fails on every argument is reported as
/// failed, once per argument, each time with a reason that is not empty.
pub proof fn lemma_unary_body_that_always_fails<F: Fn(u32) -> Result<(), String>>(
    case: AnyCase,
    name: Seq<char>,
    func: F,
    args: Seq<u32>,
    reports: Seq<CaseReport>,
)
    requires
        is_unary_case(&case, name, func, args),
        forall|i: int, verdict: Result<(), String>|
            0 <= i < args.len() && #[trigger] call_ensures(func, (args[i],), verdict) ==> verdict is Err,
        case_ran(&case, reports),
    ensures
        always_fails(&case),
        reports.len() == args.len(),
        forall|i: int| 0 <= i < args.len() ==> (#[trigger] reports[i]).is_failure_of(name),
{
}

/// A suite that holds, at any depth, a case that always fails and is
/// invoked at least once, fails.
pub proof fn lemma_failing_case_fails_suite(suite: Suite, report: SuiteReport)
    requires
        suite.has_failing_case(),
        suite.ran(report),
    ensures
        !report.succeeded(),
    decreases suite,
{
    if exists|k: int|
        0 <= k < suite.cases.len() && always_fails(&#[trigger] suite.cases[k]) && suite.cases[k].arity()
            > 0 {
        let k = choose|k: int|
            0 <= k < suite.cases.len() && always_fails(&#[trigger] suite.cases[k])
                && suite.cases[k].arity() > 0;
        lemma_each_case_reported(suite.cases, report.cases, k);
        let first = reports_before(suite.cases, k);
        let mine = report.cases.subrange(first, reports_before(suite.cases, k + 1));
        assert(mine[0] == report.cases[first]);
        assert(report.cases[first].outcome is Fail);
    } else {
        let j = choose|j: int| 0 <= j < suite.suites.len() && (#[trigger] suite.suites[j]).has_failing_case();
        lemma_failing_case_fails_suite(suite.suites[j], report.suites[j]);
        assert(!report.suites[j].succeeded());
    }
}

/// Where every case is deterministic, two runs of the cases give the same
/// reports.
pub proof fn lemma_deterministic_cases_agree(
    cases: Seq<AnyCase>,
    first: Seq<CaseReport>,
    second: Seq<CaseReport>,
)
    requires
        cases_ran(cases, first),
        cases_ran(cases, second),
        forall|k: int| 0 <= k < cases.len() ==> deterministic(&#[trigger] cases[k]),
    ensures
        first == second,
    decreases cases.len(),
{
    lemma_report_count(cases, first);
    lemma_report_count(cases, second);
    if cases.len() > 0 {
        let before = first.len() - cases.last().arity();
        assert forall|k: int| 0 <= k < cases.drop_last().len() implies deterministic(
            &#[trigger] cases.drop_last()[k],
        ) by {
            assert(cases.drop_last()[k] == cases[k]);
        }
        lemma_deterministic_cases_agree(cases.drop_last(), first.take(before), second.take(before));
        assert(deterministic(&cases[cases.len() - 1]));
        assert forall|i: int| 0 <= i < first.len() implies first[i] == second[i] by {
            if i < before {
                assert(first.take(before)[i] == first[i]);
                assert(second.take(before)[i] == second[i]);
            } else {
                assert(first.skip(before)[i - before] == first[i]);
                assert(second.skip(before)[i - before] == second[i]);
            }
        }
    }
    assert(first =~= second);
}

/// Two executions of a suite whose cases are all deterministic give equal
/// report trees.
pub proof fn lemma_deterministic_suite_reports_agree(suite: Suite, first: SuiteReport, second: SuiteReport)
    requires
        suite.deterministic(),
        suite.ran(first),
        suite.ran(second),
    ensures
        first == second,
    decreases suite,
{
    lemma_deterministic_cases_agree(suite.cases, first.cases, second.cases);
    assert forall|j: int| 0 <= j < first.suites.len() implies first.suites[j] == second.suites[j] by {
        lemma_deterministic_suite_reports_agree(suite.suites[j], first.suites[j], second.suites[j]);
    }
    assert(first.suites =~= second.suites);
}

/// Aggregation: a failure at any depth reaches the root. Where `path`
/// leads to a report that fails, the report at every step of the path
/// fails too, the root among them.
pub proof fn lemma_failure_reaches_every_ancestor(root: SuiteReport, path: Seq<int>)
    requires
        root.has_path(path),
        !root.at(path).succeeded(),
    ensures
        forall|k: int|
            0 <= k <= path.len() ==> root.has_path(#[trigger] path.take(k)) && !root.at(
                path.take(k),
            ).succeeded(),
    decreases path.len(),
{
    if path.len() > 0 {
        let child = root.suites[path[0]];
        let rest = path.drop_first();
        lemma_failure_reaches_every_ancestor(child, rest);
        assert(!child.at(rest.take(0)).succeeded());
        assert forall|k: int| 0 <= k <= path.len() implies root.has_path(#[trigger] path.take(k))
            && !root.at(path.take(k)).succeeded() by {
            if k > 0 {
                assert(path.take(k).drop_first() =~= rest.take(k - 1));
            }
        }
    }
}

/// Aggregation: a report succeeds exactly when no case report anywhere in
/// its tree is a failure. So a single failing case fails every report
/// above it, and a report with no failing case below it succeeds.
pub proof fn lemma_succeeded_iff_no_failure(report: SuiteReport)
    ensures
        report.succeeded() <==> report.no_failure_anywhere(),
    decreases report,
{
    if report.succeeded() {
        assert forall|path: Seq<int>, i: int|
            report.has_path(path) && 0 <= i < report.at(path).cases.len() implies (#[trigger] report.at(
            path,
        ).cases[i]).outcome is Pass by {
            if !report.at(path).succeeded() {
                lemma_failure_reaches_every_ancestor(report, path);
                assert(!report.at(path.take(0)).succeeded());
            }
        }
    }
    if report.no_failure_anywhere() {
        assert forall|i: int| 0 <= i < report.cases.len() implies (#[trigger] report.cases[i]).outcome is Pass by {
            assert(report.at(Seq::empty()).cases[i].outcome is Pass);
        }
        assert forall|j: int| 0 <= j < report.suites.len() implies (#[trigger] report.suites[j]).succeeded() by {
            let child = report.suites[j];
            assert forall|path: Seq<int>, i: int|
                child.has_path(path) && 0 <= i < child.at(path).cases.len() implies (#[trigger] child.at(
                path,
            ).cases[i]).outcome is Pass by {
                let longer = seq![j] + path;
                assert(longer.drop_first() =~= path);
                assert(report.at(longer).cases[i].outcome is Pass);
            }
            lemma_succeeded_iff_no_failure(child);
        }
    }
}

} // verus!
