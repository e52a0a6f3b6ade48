//! A small test-framework engine: named cases are grouped into nestable
//! suites, every case body is run on its own, and the outcomes are gathered
//! into a report tree whose success is computed bottom-up.

pub mod assertions;
pub mod case;
pub mod laws;
pub mod report;
pub mod simple_print;
pub mod suite;

pub use assertions::{assert_equals, assert_panics, assert_true};
pub use case::{it, pit, AnyCase, SimpleTestCase, TestCase, UnaryU32TestCase};
pub use report::{Failable, TestCaseReport, TestResult, TestSuiteReport};
pub use suite::{describe, suite, TestSuite};
