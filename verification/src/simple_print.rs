//! A plain rendering of a report tree as indented text.

use vstd::prelude::*;
use vstd::string::StringExecFns;
use crate::report::{
    CaseReport, Failable, Outcome, SuiteReport, TestCaseReport, TestResult, TestSuiteReport, case_views,
    suite_views,
};

verus! {

/// The line of one case report: two spaces deeper than its suite's line.
pub open spec fn case_line(report: CaseReport, indent: Seq<char>) -> Seq<char> {
    match report.outcome {
        Outcome::Pass => "  "@ + indent + report.name + ": Passes!\n"@,
        Outcome::Fail(reason) => "  "@ + indent + report.name + ": Failed with reason: "@ + reason
            + "\n"@,
    }
}

/// The lines of the first `count` of `cases`, in their order.
pub open spec fn case_lines(cases: Seq<CaseReport>, count: nat, indent: Seq<char>) -> Seq<char>
    decreases count,
{
    if count == 0 {
        Seq::empty()
    } else {
        case_lines(cases, (count - 1) as nat, indent) + case_line(cases[count - 1], indent)
    }
}

/// The heading of a suite report: its name and whether it succeeded.
pub open spec fn heading(report: SuiteReport, indent: Seq<char>) -> Seq<char> {
    indent + report.name + ": "@ + if report.succeeded() {
        "All Passed!\n"@
    } else {
        "Fails!\n"@
    }
}

/// The text of a suite report at a given indentation: its heading, then
/// the texts of its nested reports, two spaces deeper, then the lines of
/// its own case reports.
pub open spec fn nested_text(report: SuiteReport, indent: Seq<char>) -> Seq<char>
    decreases report, report.suites.len() + 1,
{
    heading(report, indent) + nested_texts(report, report.suites.len(), indent + "  "@) + case_lines(
        report.cases,
        report.cases.len(),
        indent,
    )
}

/// The texts of the first `count` nested reports of `report`, in their
/// order.
pub open spec fn nested_texts(report: SuiteReport, count: nat, indent: Seq<char>) -> Seq<char>
    decreases report, count,
{
    if count == 0 || count > report.suites.len() {
        Seq::empty()
    } else {
        nested_texts(report, (count - 1) as nat, indent) + nested_text(report.suites[count - 1], indent)
    }
}

/// The whole rendering: an empty line, the tree, an empty line, and a last
/// line that says whether the run succeeded.
pub open spec fn rendered(report: SuiteReport) -> Seq<char> {
    "\n"@ + nested_text(report, Seq::empty()) + "\n"@ + if report.succeeded() {
        "Tests Pass!\n"@
    } else {
        "Test Failure!\n"@
    }
}

/// Appends the line of one case report.
fn render_case(case: &TestCaseReport, indent: &str, out: &mut String)
    ensures
        final(out)@ == old(out)@ + case_line(case@, indent@),
{
    out.append("  ");
    out.append(indent);
    out.append(case.name());
    match case.result() {
        TestResult::Pass => {
            out.append(": Passes!\n");
        },
        TestResult::Fail(reason) => {
            out.append(": Failed with reason: ");
            out.append(reason.as_str());
            out.append("\n");
        },
    }
}

/// Appends the text of a suite report at the given indentation.
fn render_nested(results: &TestSuiteReport, indent: &str, out: &mut String)
    ensures
        final(out)@ == old(out)@ + nested_text(results@, indent@),
    decreases results@,
{
    out.append(indent);
    out.append(results.name());
    out.append(": ");
    if results.succeeded() {
        out.append("All Passed!\n");
    } else {
        out.append("Fails!\n");
    }
    let mut deeper = String::from_str(indent);
    deeper.append("  ");
    let suites = results.suites();
    let mut j: usize = 0;
    while j < suites.len()
        invariant
            j <= suites.len(),
            suite_views(suites@) == results@.suites,
            deeper@ == indent@ + "  "@,
            out@ == old(out)@ + heading(results@, indent@) + nested_texts(results@, j as nat, deeper@),
        decreases suites.len() - j,
    {
        assert(results@.suites[j as int] == suites@[j as int]@);
        render_nested(&suites[j], deeper.as_str(), out);
        assert(out@ =~= old(out)@ + heading(results@, indent@) + nested_texts(
            results@,
            (j + 1) as nat,
            deeper@,
        ));
        j = j + 1;
    }
    let cases = results.cases();
    let mut i: usize = 0;
    while i < cases.len()
        invariant
            i <= cases.len(),
            case_views(cases@) == results@.cases,
            out@ == old(out)@ + heading(results@, indent@) + nested_texts(
                results@,
                results@.suites.len(),
                indent@ + "  "@,
            ) + case_lines(results@.cases, i as nat, indent@),
        decreases cases.len() - i,
    {
        render_case(&cases[i], indent, out);
        assert(out@ =~= old(out)@ + heading(results@, indent@) + nested_texts(
            results@,
            results@.suites.len(),
            indent@ + "  "@,
        ) + case_lines(results@.cases, (i + 1) as nat, indent@));
        i = i + 1;
    }
}

/// Renders a report tree as text: what a plain printer writes.
pub fn render(results: &TestSuiteReport) -> (text: String)
    ensures
        text@ == rendered(results@),
{
    let mut text = String::from_str("\n");
    render_nested(results, "", &mut text);
    text.append("\n");
    if results.succeeded() {
        text.append("Tests Pass!\n");
    } else {
        text.append("Test Failure!\n");
    }
    proof {
        reveal_strlit("");
        assert(""@ =~= Seq::<char>::empty());
    }
    text
}

} // verus!
