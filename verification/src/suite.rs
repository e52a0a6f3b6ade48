//! Suites: named, ordered groups of cases and nested suites, and the
//! executor that turns a suite into a report tree of the same shape.

use vstd::prelude::*;
use crate::case::{AnyCase, TestCase, always_fails, case_ran, deterministic, never_fails};
use crate::laws::lemma_report_well_formed;
use crate::report::{CaseReport, SuiteReport, TestCaseReport, TestSuiteReport, case_views};

verus! {

/// A suite as a mathematical value: its name, its own cases and its nested
/// suites, each in declaration order.
pub struct Suite {
    pub name: Seq<char>,
    pub cases: Seq<AnyCase>,
    pub suites: Seq<Suite>,
}

/// `reports` is what running `cases` one after the other can give: the
/// reports of the first case, then those of the second, and so on, with
/// nothing between them and nothing left out.
pub open spec fn cases_ran(cases: Seq<AnyCase>, reports: Seq<CaseReport>) -> bool
    decreases cases.len(),
{
    if cases.len() == 0 {
        reports.len() == 0
    } else {
        let before = reports.len() - cases.last().arity();
        &&& before >= 0
        &&& cases_ran(cases.drop_last(), reports.take(before))
        &&& case_ran(&cases.last(), reports.skip(before))
    }
}

/// How many reports running `cases` one after the other gives.
pub open spec fn total_arity(cases: Seq<AnyCase>) -> nat
    decreases cases.len(),
{
    if cases.len() == 0 {
        0
    } else {
        total_arity(cases.drop_last()) + cases.last().arity()
    }
}

/// The names that the reports of `cases` carry, in the order of the
/// reports: each case's name once per invocation, case after case.
pub open spec fn names_in_order(cases: Seq<AnyCase>) -> Seq<Seq<char>>
    decreases cases.len(),
{
    if cases.len() == 0 {
        Seq::empty()
    } else {
        names_in_order(cases.drop_last()) + Seq::new(cases.last().arity(), |i: int| cases.last().name())
    }
}

/// How many reports the cases before the one at index `k` give: the place
/// of that case's first report.
pub open spec fn reports_before(cases: Seq<AnyCase>, k: int) -> int {
    total_arity(cases.take(k)) as int
}

impl Suite {
    /// No case of the suite, at any depth, can fail.
    pub open spec fn never_fails(self) -> bool
        decreases self,
    {
        &&& forall|k: int| 0 <= k < self.cases.len() ==> never_fails(&#[trigger] self.cases[k])
        &&& forall|j: int| 0 <= j < self.suites.len() ==> (#[trigger] self.suites[j]).never_fails()
    }

    /// Some case of the suite, at some depth, is invoked at least once and
    /// cannot pass.
    pub open spec fn has_failing_case(self) -> bool
        decreases self,
    {
        ||| exists|k: int|
            0 <= k < self.cases.len() && always_fails(&#[trigger] self.cases[k])
                && self.cases[k].arity() > 0
        ||| exists|j: int| 0 <= j < self.suites.len() && (#[trigger] self.suites[j]).has_failing_case()
    }

    /// Every case of the suite, at any depth, is deterministic.
    pub open spec fn deterministic(self) -> bool
        decreases self,
    {
        &&& forall|k: int| 0 <= k < self.cases.len() ==> deterministic(&#[trigger] self.cases[k])
        &&& forall|j: int| 0 <= j < self.suites.len() ==> (#[trigger] self.suites[j]).deterministic()
    }

    /// `report` is what one execution of this suite can give: it carries the
    /// suite's name, the reports of the suite's own cases in declaration
    /// order, and one report per nested suite, in declaration order, each of
    /// which is in turn what executing that nested suite can give.
    pub open spec fn ran(self, report: SuiteReport) -> bool
        decreases self,
    {
        &&& report.name == self.name
        &&& cases_ran(self.cases, report.cases)
        &&& report.suites.len() == self.suites.len()
        &&& forall|j: int|
            0 <= j < self.suites.len() ==> (#[trigger] self.suites[j]).ran(report.suites[j])
    }
}

/// A named, ordered group of cases and nested suites. It is built once and
/// only read afterwards; executing it leaves it as it was.
pub struct TestSuite {
    name: &'static str,
    suites: Vec<TestSuite>,
    tests: Vec<AnyCase>,
}

/// The views of a sequence of suites, one for one.
pub open spec fn suite_models(suites: Seq<TestSuite>) -> Seq<Suite> {
    Seq::new(suites.len(), |j: int| suites[j]@)
}

impl View for TestSuite {
    type V = Suite;

    closed spec fn view(&self) -> Suite {
        self.model()
    }
}

impl TestSuite {
    /// The tree as a mathematical value, level by level.
    spec fn model(&self) -> Suite
        decreases self,
    {
        Suite {
            name: self.name@,
            cases: self.tests@,
            suites: Seq::new(
                self.suites@.len(),
                |j: int|
                    if 0 <= j < self.suites@.len() {
                        self.suites@[j].model()
                    } else {
                        arbitrary()
                    },
            ),
        }
    }

    /// A suite with both cases of its own and nested suites.
    pub fn of(name: &'static str, tests: Vec<AnyCase>, suites: Vec<TestSuite>) -> (made: TestSuite)
        ensures
            made@ == (Suite { name: name@, cases: tests@, suites: suite_models(suites@) }),
    {
        let made = TestSuite { name, suites, tests };
        assert(made@.suites =~= suite_models(suites@));
        made
    }

    /// Runs the suite's own cases in declaration order and gathers their
    /// reports, the reports of one case directly after those of the case
    /// before it.
    pub fn run_cases(&self) -> (reports: Vec<TestCaseReport>)
        ensures
            cases_ran(self@.cases, case_views(reports@)),
    {
        let mut reports: Vec<TestCaseReport> = Vec::new();
        let mut i: usize = 0;
        while i < self.tests.len()
            invariant
                i <= self.tests.len(),
                cases_ran(self.tests@.take(i as int), case_views(reports@)),
            decreases self.tests.len() - i,
        {
            let ghost before = case_views(reports@);
            let mut more = self.tests[i].run();
            reports.append(&mut more);
            proof {
                assert(self.tests@.take(i + 1).drop_last() =~= self.tests@.take(i as int));
                assert(case_views(reports@).take(before.len() as int) =~= before);
            }
            i = i + 1;
        }
        assert(self.tests@.take(i as int) =~= self.tests@);
        reports
    }

    /// Executes the nested suites in declaration order.
    pub fn run_suites(&self) -> (reports: Vec<TestSuiteReport>)
        ensures
            reports@.len() == self@.suites.len(),
            forall|j: int|
                0 <= j < reports@.len() ==> (#[trigger] self@.suites[j]).ran(reports@[j]@),
        decreases self, 0nat,
    {
        let mut reports: Vec<TestSuiteReport> = Vec::new();
        let mut j: usize = 0;
        while j < self.suites.len()
            invariant
                j <= self.suites.len(),
                reports@.len() == j,
                self@.suites.len() == self.suites@.len(),
                forall|k: int| 0 <= k < j ==> (#[trigger] self@.suites[k]).ran(reports@[k]@),
            decreases self.suites.len() - j,
        {
            let report = self.suites[j].run();
            reports.push(report);
            j = j + 1;
        }
        reports
    }

    /// Executes the suite: its own cases first, then its nested suites, both
    /// in declaration order. No case failure stops the execution; all that
    /// comes back is the report.
    pub fn run(&self) -> (report: TestSuiteReport)
        ensures
            self@.ran(report@),
            report@.well_formed(),
        decreases self, 1nat,
    {
        let case_results: Vec<TestCaseReport> = self.run_cases();
        let suite_results: Vec<TestSuiteReport> = self.run_suites();
        let report = TestSuiteReport::of(self.name, case_results, suite_results);
        proof {
            lemma_report_well_formed(self@, report@);
        }
        report
    }

    /// The suite's name.
    pub fn name(&self) -> (name: &'static str)
        ensures
            name@ == self@.name,
    {
        self.name
    }

    /// The suite's own cases, in declaration order.
    pub fn cases(&self) -> (cases: &Vec<AnyCase>)
        ensures
            cases@ == self@.cases,
    {
        &self.tests
    }

    /// The nested suites, in declaration order.
    pub fn suites(&self) -> (suites: &Vec<TestSuite>)
        ensures
            suite_models(suites@) == self@.suites,
    {
        &self.suites
    }
}

/// A suite that holds nested suites only.
pub fn suite(name: &'static str, suites: Vec<TestSuite>) -> (made: TestSuite)
    ensures
        made@ == (Suite { name: name@, cases: Seq::<AnyCase>::empty(), suites: suite_models(suites@) }),
{
    TestSuite::of(name, vec![], suites)
}

/// A suite that holds cases only.
pub fn describe(name: &'static str, tests: Vec<AnyCase>) -> (made: TestSuite)
    ensures
        made@ == (Suite { name: name@, cases: tests@, suites: Seq::<Suite>::empty() }),
{
    let made = TestSuite::of(name, tests, vec![]);
    assert(made@.suites =~= Seq::<Suite>::empty());
    made
}

} // verus!
