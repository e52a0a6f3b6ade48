use runit::simple_print::render;
use runit::{assert_true, describe, it, pit, suite, TestCaseReport, TestSuite, TestSuiteReport};

#[test]
fn empty_report_is_rendered_as_its_heading() {
    let report = TestSuiteReport::of("empty", vec![], vec![]);
    assert_eq!(render(&report), "\nempty: All Passed!\n\nTests Pass!\n");
}

#[test]
fn case_lines_are_indented_below_the_heading() {
    let report = TestSuiteReport::of(
        "flat",
        vec![TestCaseReport::pass("a"), TestCaseReport::fail("b", "bad")],
        vec![],
    );
    assert_eq!(
        render(&report),
        "\nflat: Fails!\n  a: Passes!\n  b: Failed with reason: bad\n\nTest Failure!\n"
    );
}

#[test]
fn nested_reports_come_before_the_own_cases() {
    let root = TestSuite::of(
        "root",
        vec![it("ok", || assert_true(true))],
        vec![describe("child", vec![it("bad", || assert_true(false))])],
    );
    let expected = "\n\
root: Fails!\n\
\x20 child: Fails!\n\
\x20   bad: Failed with reason: Expected 'true' but got 'false'.\n\
\x20 ok: Passes!\n\
\n\
Test Failure!\n";
    assert_eq!(render(&root.run()), expected);
}

#[test]
fn deeper_levels_are_indented_by_two_more_spaces() {
    let root = suite(
        "Outer Suite",
        vec![
            describe("Inner Suite 1", vec![it("successful test", || Ok(())), it("another one", || Ok(()))]),
            suite("Inner Suite 2", vec![describe("Innermost", vec![pit("each", |_x| Ok(()), vec![1, 2])])]),
        ],
    );
    let expected = "\n\
Outer Suite: All Passed!\n\
\x20 Inner Suite 1: All Passed!\n\
\x20   successful test: Passes!\n\
\x20   another one: Passes!\n\
\x20 Inner Suite 2: All Passed!\n\
\x20   Innermost: All Passed!\n\
\x20     each: Passes!\n\
\x20     each: Passes!\n\
\n\
Tests Pass!\n";
    assert_eq!(render(&root.run()), expected);
}

#[test]
fn rendering_leaves_the_report_as_it_was() {
    let report = describe("twice", vec![it("bad", || assert_true(false))]).run();
    let first = render(&report);
    let second = render(&report);
    assert_eq!(first, second);
}
