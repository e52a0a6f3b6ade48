//! Outcomes and the report tree that an executed suite leaves behind.

use vstd::prelude::*;

verus! {

/// The reason recorded for a failure that brought no message of its own.
pub const UNKNOWN_REASON: &'static str = "unknown reason";

/// What one invocation of a case body ended in, as a mathematical value.
pub enum Outcome {
    Pass,
    Fail(Seq<char>),
}

impl Outcome {
    /// A failure always carries a reason that is not empty.
    pub open spec fn well_formed(self) -> bool {
        self matches Outcome::Fail(reason) ==> reason.len() > 0
    }
}

/// The reason that is recorded for a failure with the given message.
pub open spec fn reason_of(message: Seq<char>) -> Seq<char> {
    if message.len() == 0 {
        UNKNOWN_REASON@
    } else {
        message
    }
}

/// The report of one invocation of a case, as a mathematical value.
pub struct CaseReport {
    pub name: Seq<char>,
    pub outcome: Outcome,
}

impl CaseReport {
    /// The report stands under `name` and is well formed.
    pub open spec fn is_report_of(self, name: Seq<char>) -> bool {
        self.name == name && self.outcome.well_formed()
    }

    /// The report stands under `name` and is a failure with a reason.
    pub open spec fn is_failure_of(self, name: Seq<char>) -> bool {
        self.name == name && self.outcome is Fail && self.outcome.well_formed()
    }
}

/// The names that `reports` stand under, in the order of the reports.
pub open spec fn names(reports: Seq<CaseReport>) -> Seq<Seq<char>> {
    Seq::new(reports.len(), |i: int| reports[i].name)
}

/// As many passes as `count` says, each under `name`.
pub open spec fn passes(name: Seq<char>, count: nat) -> Seq<CaseReport> {
    Seq::new(count, |i: int| CaseReport { name, outcome: Outcome::Pass })
}

/// The report of a suite, as a mathematical value: a tree of the same shape
/// as the suite it came from.
pub struct SuiteReport {
    pub name: Seq<char>,
    pub cases: Seq<CaseReport>,
    pub suites: Seq<SuiteReport>,
}

impl SuiteReport {
    /// A suite report succeeds when every case report in it passed and every
    /// nested suite report succeeds; with nothing in it, it succeeds.
    pub open spec fn succeeded(self) -> bool
        decreases self,
    {
        &&& forall|i: int| 0 <= i < self.cases.len() ==> (#[trigger] self.cases[i]).outcome is Pass
        &&& forall|j: int| 0 <= j < self.suites.len() ==> (#[trigger] self.suites[j]).succeeded()
    }

    /// Every failure in the tree, at any depth, carries a reason that is not
    /// empty.
    pub open spec fn well_formed(self) -> bool
        decreases self,
    {
        &&& forall|i: int| 0 <= i < self.cases.len() ==> (#[trigger] self.cases[i]).outcome.well_formed()
        &&& forall|j: int| 0 <= j < self.suites.len() ==> (#[trigger] self.suites[j]).well_formed()
    }

    /// Whether `path` leads from this report down into the tree: its first
    /// entry is the index of a nested report, the next one an index in that
    /// report, and so on. The empty path leads to this report itself.
    pub open spec fn has_path(self, path: Seq<int>) -> bool
        decreases path.len(),
    {
        path.len() > 0 ==> {
            &&& 0 <= path[0] < self.suites.len()
            &&& self.suites[path[0]].has_path(path.drop_first())
        }
    }

    /// The report that `path` leads to.
    pub open spec fn at(self, path: Seq<int>) -> SuiteReport
        decreases path.len(),
    {
        if path.len() == 0 {
            self
        } else {
            self.suites[path[0]].at(path.drop_first())
        }
    }

    /// No case report anywhere in the tree is a failure.
    pub open spec fn no_failure_anywhere(self) -> bool {
        forall|path: Seq<int>, i: int|
            self.has_path(path) && 0 <= i < self.at(path).cases.len() ==> (#[trigger] self.at(
                path,
            ).cases[i]).outcome is Pass
    }
}

/// The result of one invocation of a case body.
#[derive(Debug)]
pub enum TestResult {
    Pass,
    Fail(String),
}

impl View for TestResult {
    type V = Outcome;

    open spec fn view(&self) -> Outcome {
        match self {
            TestResult::Pass => Outcome::Pass,
            TestResult::Fail(reason) => Outcome::Fail(reason@),
        }
    }
}

/// Values that stand for a success or a failure.
pub trait Failable {
    /// Whether the value stands for a success.
    spec fn passing(&self) -> bool;

    /// Whether the value stands for a success.
    fn succeeded(&self) -> (yes: bool)
        ensures
            yes == self.passing(),
    ;

    /// The negation of `succeeded`.
    fn failed(&self) -> (yes: bool)
        ensures
            yes == !self.passing(),
    {
        !self.succeeded()
    }
}

impl Failable for TestResult {
    open spec fn passing(&self) -> bool {
        self@ is Pass
    }

    fn succeeded(&self) -> (yes: bool) {
        match self {
            TestResult::Pass => true,
            TestResult::Fail(_) => false,
        }
    }
}

/// The report of one invocation of a case: the case's name and what the
/// invocation ended in.
#[derive(Debug)]
pub struct TestCaseReport {
    name: &'static str,
    result: TestResult,
}

impl View for TestCaseReport {
    type V = CaseReport;

    closed spec fn view(&self) -> CaseReport {
        CaseReport { name: self.name@, outcome: self.result@ }
    }
}

impl TestCaseReport {
    /// The report of an invocation that passed.
    pub fn pass(name: &'static str) -> (report: TestCaseReport)
        ensures
            report@ == (CaseReport { name: name@, outcome: Outcome::Pass }),
    {
        return TestCaseReport { name, result: TestResult::Pass };
    }

    /// The report of an invocation that failed. An empty `reason` is
    /// recorded as `UNKNOWN_REASON`, so the report is always well formed.
    pub fn fail(name: &'static str, reason: &str) -> (report: TestCaseReport)
        ensures
            report@ == (CaseReport { name: name@, outcome: Outcome::Fail(reason_of(reason@)) }),
            report@.outcome.well_formed(),
    {
        proof {
            reveal_strlit("unknown reason");
        }
        let recorded = if reason.is_empty() {
            UNKNOWN_REASON.to_owned()
        } else {
            reason.to_owned()
        };
        return TestCaseReport { name, result: TestResult::Fail(recorded) };
    }

    /// The name of the case that was run.
    pub fn name(&self) -> (name: &'static str)
        ensures
            name@ == self@.name,
    {
        self.name
    }

    /// What the invocation ended in.
    pub fn result(&self) -> (result: &TestResult)
        ensures
            result@ == self@.outcome,
    {
        &self.result
    }
}

impl Failable for TestCaseReport {
    open spec fn passing(&self) -> bool {
        self@.outcome is Pass
    }

    fn succeeded(&self) -> (yes: bool) {
        self.result.succeeded()
    }
}

/// The exit status that stands for a run: 0 for a success, 1 for a failure.
pub open spec fn exit_status(succeeded: bool) -> int {
    if succeeded {
        0
    } else {
        1
    }
}

/// Computes the exit status that stands for a run. Ending the process with
/// it is left to the caller.
pub fn success_to_exit_code(succeeded: bool) -> (code: i32)
    ensures
        code == exit_status(succeeded),
{
    if succeeded {
        0
    } else {
        1
    }
}

/// The report of an executed suite: the suite's name, the reports of its
/// own cases, and the reports of its nested suites, each in the order in
/// which the suite declared them.
#[derive(Debug)]
pub struct TestSuiteReport {
    name: &'static str,
    cases: Vec<TestCaseReport>,
    suites: Vec<TestSuiteReport>,
}

/// The views of a sequence of case reports, one for one.
pub open spec fn case_views(cases: Seq<TestCaseReport>) -> Seq<CaseReport> {
    Seq::new(cases.len(), |i: int| cases[i]@)
}

/// The views of a sequence of suite reports, one for one.
pub open spec fn suite_views(suites: Seq<TestSuiteReport>) -> Seq<SuiteReport> {
    Seq::new(suites.len(), |j: int| suites[j]@)
}

impl View for TestSuiteReport {
    type V = SuiteReport;

    closed spec fn view(&self) -> SuiteReport {
        self.model()
    }
}

impl TestSuiteReport {
    /// The tree as a mathematical value, level by level.
    spec fn model(&self) -> SuiteReport
        decreases self,
    {
        SuiteReport {
            name: self.name@,
            cases: Seq::new(self.cases@.len(), |i: int| self.cases@[i]@),
            suites: Seq::new(
                self.suites@.len(),
                |j: int|
                    if 0 <= j < self.suites@.len() {
                        self.suites@[j].model()
                    } else {
                        arbitrary()
                    },
            ),
        }
    }

    /// Puts a report together from its parts.
    pub fn of(name: &'static str, cases: Vec<TestCaseReport>, suites: Vec<TestSuiteReport>) -> (report: Self)
        ensures
            report@ == (SuiteReport {
                name: name@,
                cases: case_views(cases@),
                suites: suite_views(suites@),
            }),
    {
        let report = Self { name, cases, suites };
        assert(report@.suites =~= suite_views(suites@));
        return report;
    }

    /// Hands the report to `print` and gives the report back, so that calls
    /// can be chained. The printer only reads: the report is as it was.
    pub fn print<P: Fn(&TestSuiteReport)>(&self, print: P) -> (same: &Self)
        requires
            call_requires(print, (self,)),
        ensures
            same == self,
            call_ensures(print, (self,), ()),
    {
        print(self);
        self
    }

    /// The status that a process reports this run with: 0 where the report
    /// succeeded, 1 where it failed.
    pub fn exit_code(&self) -> (code: i32)
        ensures
            code == exit_status(self@.succeeded()),
    {
        success_to_exit_code(self.succeeded())
    }

    /// The name of the suite that was executed.
    pub fn name(&self) -> (name: &'static str)
        ensures
            name@ == self@.name,
    {
        self.name
    }

    /// The reports of the suite's own cases.
    pub fn cases(&self) -> (cases: &Vec<TestCaseReport>)
        ensures
            case_views(cases@) == self@.cases,
    {
        &self.cases
    }

    /// The reports of the nested suites.
    pub fn suites(&self) -> (suites: &Vec<TestSuiteReport>)
        ensures
            suite_views(suites@) == self@.suites,
    {
        &self.suites
    }
}

impl Failable for TestSuiteReport {
    open spec fn passing(&self) -> bool {
        self@.succeeded()
    }

    /// Computed from the outcomes each time it is asked for; nothing is
    /// cached.
    fn succeeded(&self) -> (yes: bool)
        decreases self,
    {
        let cases = self.cases();
        let mut i: usize = 0;
        while i < cases.len()
            invariant
                i <= cases.len(),
                case_views(cases@) == self@.cases,
                forall|k: int| 0 <= k < i ==> (#[trigger] self@.cases[k]).outcome is Pass,
            decreases cases.len() - i,
        {
            assert(self@.cases[i as int] == cases@[i as int]@);
            if !cases[i].succeeded() {
                return false;
            }
            i = i + 1;
        }
        let mut j: usize = 0;
        while j < self.suites.len()
            invariant
                j <= self.suites.len(),
                suite_views(self.suites@) == self@.suites,
                forall|k: int| 0 <= k < i ==> (#[trigger] self@.cases[k]).outcome is Pass,
                i == self@.cases.len(),
                forall|k: int| 0 <= k < j ==> (#[trigger] self@.suites[k]).succeeded(),
            decreases self.suites.len() - j,
        {
            assert(self@.suites[j as int] == self.suites@[j as int]@);
            if !self.suites[j].succeeded() {
                return false;
            }
            j = j + 1;
        }
        true
    }
}

/// Whether two names are the same text.
fn same_name(mine: &str, theirs: &str) -> (same: bool)
    ensures
        same == (mine@ == theirs@),
{
    mine.to_owned() == theirs.to_owned()
}

impl PartialEq for TestResult {
    /// Two results are equal when both are passes, or both are failures
    /// with the same reason.
    fn eq(&self, other: &Self) -> (same: bool) {
        match (self, other) {
            (TestResult::Pass, TestResult::Pass) => true,
            (TestResult::Fail(mine), TestResult::Fail(theirs)) => *mine == *theirs,
            _ => false,
        }
    }
}

impl vstd::std_specs::cmp::PartialEqSpecImpl for TestResult {
    open spec fn obeys_eq_spec() -> bool {
        true
    }

    open spec fn eq_spec(&self, other: &Self) -> bool {
        self@ == other@
    }
}

impl PartialEq for TestCaseReport {
    /// Two case reports are equal when they carry the same name and equal
    /// results.
    fn eq(&self, other: &Self) -> (same: bool) {
        same_name(self.name, other.name) && self.result == other.result
    }
}

impl vstd::std_specs::cmp::PartialEqSpecImpl for TestCaseReport {
    open spec fn obeys_eq_spec() -> bool {
        true
    }

    open spec fn eq_spec(&self, other: &Self) -> bool {
        self@ == other@
    }
}

impl TestSuiteReport {
    /// Whether two report trees are the same: same names, equal case
    /// reports and equal nested reports, in the same order, at every depth.
    pub fn same_as(&self, other: &Self) -> (same: bool)
        ensures
            same == (self@ == other@),
        decreases self,
    {
        assert(case_views(self.cases@) =~= self@.cases);
        assert(case_views(other.cases@) =~= other@.cases);
        assert(suite_views(self.suites@) =~= self@.suites);
        assert(suite_views(other.suites@) =~= other@.suites);
        if !same_name(self.name, other.name) || self.cases.len() != other.cases.len()
            || self.suites.len() != other.suites.len() {
            return false;
        }
        let mut i: usize = 0;
        while i < self.cases.len()
            invariant
                i <= self.cases.len(),
                self.cases.len() == other.cases.len(),
                case_views(self.cases@) == self@.cases,
                case_views(other.cases@) == other@.cases,
                forall|k: int| 0 <= k < i ==> self@.cases[k] == other@.cases[k],
            decreases self.cases.len() - i,
        {
            if self.cases[i] != other.cases[i] {
                assert(self@.cases[i as int] != other@.cases[i as int]);
                return false;
            }
            i = i + 1;
        }
        let mut j: usize = 0;
        while j < self.suites.len()
            invariant
                j <= self.suites.len(),
                self.suites.len() == other.suites.len(),
                suite_views(self.suites@) == self@.suites,
                suite_views(other.suites@) == other@.suites,
                forall|k: int| 0 <= k < j ==> self@.suites[k] == other@.suites[k],
            decreases self.suites.len() - j,
        {
            if !self.suites[j].same_as(&other.suites[j]) {
                assert(self@.suites[j as int] != other@.suites[j as int]);
                return false;
            }
            j = j + 1;
        }
        assert(self@.cases =~= other@.cases);
        assert(self@.suites =~= other@.suites);
        true
    }
}

impl PartialEq for TestSuiteReport {
    /// Two report trees are equal when they are the same at every depth.
    fn eq(&self, other: &Self) -> (same: bool) {
        self.same_as(other)
    }
}

impl vstd::std_specs::cmp::PartialEqSpecImpl for TestSuiteReport {
    open spec fn obeys_eq_spec() -> bool {
        true
    }

    open spec fn eq_spec(&self, other: &Self) -> bool {
        self@ == other@
    }
}

} // verus!
