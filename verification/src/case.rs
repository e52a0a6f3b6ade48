//! Test cases: named, runnable units that report one outcome per invocation
//! of their body.

use vstd::prelude::*;
use crate::report::{CaseReport, Outcome, TestCaseReport, reason_of};

verus! {

/// What a body's verdict is recorded as: success is a pass, an error is a
/// failure whose reason is taken from the error's message.
pub open spec fn outcome_of(verdict: Result<(), String>) -> Outcome {
    match verdict {
        Ok(_) => Outcome::Pass,
        Err(message) => Outcome::Fail(reason_of(message@)),
    }
}

/// A named, runnable unit. Running it invokes its body `arity()` times and
/// gives one report per invocation, in the order of the invocations.
pub trait TestCase {
    /// The name that every report of this case carries.
    spec fn name(&self) -> Seq<char>;

    /// How many times running the case invokes its body.
    spec fn arity(&self) -> nat;

    /// Whether invocation `i` of the body can end in `outcome`.
    spec fn may_end(&self, i: int, outcome: Outcome) -> bool;

    /// Invokes the body once per invocation that the case stands for. A
    /// failing invocation is recorded and the remaining ones still run.
    fn run(&self) -> (reports: Vec<TestCaseReport>)
        ensures
            reports@.len() == self.arity(),
            forall|i: int|
                0 <= i < reports@.len() ==> (#[trigger] reports@[i])@.is_report_of(self.name())
                    && self.may_end(i, reports@[i]@.outcome),
    ;
}

/// `reports` is what one run of `case` can give: one report per invocation,
/// each under the case's name, each well formed, each with an outcome that
/// the invocation can end in.
pub open spec fn case_ran<C: TestCase + ?Sized>(case: &C, reports: Seq<CaseReport>) -> bool {
    &&& reports.len() == case.arity()
    &&& forall|i: int|
        0 <= i < reports.len() ==> (#[trigger] reports[i]).is_report_of(case.name()) && case.may_end(
            i,
            reports[i].outcome,
        )
}

/// No invocation of `case` can end in a failure.
pub open spec fn never_fails<C: TestCase + ?Sized>(case: &C) -> bool {
    forall|i: int, outcome: Outcome|
        0 <= i < case.arity() && #[trigger] case.may_end(i, outcome) ==> outcome is Pass
}

/// No invocation of `case` can end in a pass.
pub open spec fn always_fails<C: TestCase + ?Sized>(case: &C) -> bool {
    forall|i: int, outcome: Outcome|
        0 <= i < case.arity() && #[trigger] case.may_end(i, outcome) ==> outcome is Fail
}

/// Every invocation of `case` can end in one outcome only.
pub open spec fn deterministic<C: TestCase + ?Sized>(case: &C) -> bool {
    forall|i: int, first: Outcome, second: Outcome|
        0 <= i < case.arity() && #[trigger] case.may_end(i, first) && #[trigger] case.may_end(
            i,
            second,
        ) ==> first == second
}

/// A case whose body takes no argument and is invoked once.
pub struct SimpleTestCase<F: Fn() -> Result<(), String>> {
    name: &'static str,
    func: F,
}

impl<F: Fn() -> Result<(), String>> SimpleTestCase<F> {
    /// The body can be called at any time.
    #[verifier::type_invariant]
    spec fn callable(&self) -> bool {
        call_requires(self.func, ())
    }
}

impl<F: Fn() -> Result<(), String>> TestCase for SimpleTestCase<F> {
    closed spec fn name(&self) -> Seq<char> {
        self.name@
    }

    closed spec fn arity(&self) -> nat {
        1
    }

    closed spec fn may_end(&self, i: int, outcome: Outcome) -> bool {
        i == 0 && exists|verdict: Result<(), String>| #[trigger]
            call_ensures(self.func, (), verdict) && outcome == outcome_of(verdict)
    }

    fn run(&self) -> (reports: Vec<TestCaseReport>) {
        proof {
            use_type_invariant(self);
        }
        let verdict = (self.func)();
        let report = match verdict {
            Ok(_) => TestCaseReport::pass(self.name),
            Err(message) => TestCaseReport::fail(self.name, message.as_str()),
        };
        return vec![report];
    }
}

/// A case whose body takes one `u32` and is invoked once for each of the
/// case's arguments, in their order. All its reports share the case's name.
pub struct UnaryU32TestCase<F: Fn(u32) -> Result<(), String>> {
    name: &'static str,
    func: F,
    args: Vec<u32>,
}

impl<F: Fn(u32) -> Result<(), String>> UnaryU32TestCase<F> {
    /// The body can be called on each argument at any time.
    #[verifier::type_invariant]
    spec fn callable(&self) -> bool {
        forall|i: int| 0 <= i < self.args@.len() ==> call_requires(self.func, (#[trigger] self.args@[i],))
    }
}

impl<F: Fn(u32) -> Result<(), String>> TestCase for UnaryU32TestCase<F> {
    closed spec fn name(&self) -> Seq<char> {
        self.name@
    }

    closed spec fn arity(&self) -> nat {
        self.args@.len()
    }

    closed spec fn may_end(&self, i: int, outcome: Outcome) -> bool {
        0 <= i < self.args@.len() && exists|verdict: Result<(), String>| #[trigger]
            call_ensures(self.func, (self.args@[i],), verdict) && outcome == outcome_of(verdict)
    }

    fn run(&self) -> (reports: Vec<TestCaseReport>) {
        proof {
            use_type_invariant(self);
        }
        let mut reports: Vec<TestCaseReport> = Vec::new();
        let mut i: usize = 0;
        while i < self.args.len()
            invariant
                i <= self.args.len(),
                reports@.len() == i,
                self.callable(),
                forall|k: int|
                    0 <= k < i ==> (#[trigger] reports@[k])@.is_report_of(self.name@) && self.may_end(
                        k,
                        reports@[k]@.outcome,
                    ),
            decreases self.args.len() - i,
        {
            let verdict = (self.func)(self.args[i]);
            let report = match verdict {
                Ok(_) => TestCaseReport::pass(self.name),
                Err(message) => TestCaseReport::fail(self.name, message.as_str()),
            };
            reports.push(report);
            i = i + 1;
        }
        return reports;
    }
}

/// A case of any kind, ready to be put into a suite.
pub struct AnyCase {
    case: Box<dyn TestCase>,
}


impl TestCase for AnyCase {
    closed spec fn name(&self) -> Seq<char> {
        self.case.name()
    }

    closed spec fn arity(&self) -> nat {
        self.case.arity()
    }

    closed spec fn may_end(&self, i: int, outcome: Outcome) -> bool {
        self.case.may_end(i, outcome)
    }

    fn run(&self) -> (reports: Vec<TestCaseReport>) {
        self.case.run()
    }
}

/// `case` is the case of the given name that invokes `func` once.
pub open spec fn is_simple_case<F: Fn() -> Result<(), String>>(
    case: &AnyCase,
    name: Seq<char>,
    func: F,
) -> bool {
    &&& case.name() == name
    &&& case.arity() == 1
    &&& forall|i: int, outcome: Outcome|
        case.may_end(i, outcome) <==> i == 0 && exists|verdict: Result<(), String>| #[trigger]
            call_ensures(func, (), verdict) && outcome == outcome_of(verdict)
}

/// `case` is the case of the given name that invokes `func` once for each
/// of `args`, in their order.
pub open spec fn is_unary_case<F: Fn(u32) -> Result<(), String>>(
    case: &AnyCase,
    name: Seq<char>,
    func: F,
    args: Seq<u32>,
) -> bool {
    &&& case.name() == name
    &&& case.arity() == args.len()
    &&& forall|i: int, outcome: Outcome|
        case.may_end(i, outcome) <==> 0 <= i < args.len() && exists|verdict: Result<(), String>| #[trigger]
            call_ensures(func, (args[i],), verdict) && outcome == outcome_of(verdict)
}

/// Makes a case that invokes `func` once.
pub fn it<F>(name: &'static str, func: F) -> (case: AnyCase) where
    F: Fn() -> Result<(), String> + 'static,

    requires
        call_requires(func, ()),
    ensures
        is_simple_case(&case, name@, func),
{
    let case: Box<SimpleTestCase<F>> = Box::new(SimpleTestCase { name, func });
    AnyCase { case }
}

/// Makes a case that invokes `func` once for each of `args`, in their order.
pub fn pit<F>(name: &'static str, func: F, args: Vec<u32>) -> (case: AnyCase) where
    F: Fn(u32) -> Result<(), String> + 'static,

    requires
        forall|i: int| 0 <= i < args@.len() ==> call_requires(func, (#[trigger] args@[i],)),
    ensures
        is_unary_case(&case, name@, func, args@),
{
    let case: Box<UnaryU32TestCase<F>> = Box::new(UnaryU32TestCase { name, func, args });
    AnyCase { case }
}

} // verus!
