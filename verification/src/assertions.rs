//! Checks for use in case bodies. A check that does not hold gives an error
//! with a message, which a body hands on as its verdict.

use vstd::prelude::*;
use vstd::string::to_string_from_display_ensures;
use vstd::std_specs::cmp::PartialEqSpec;

verus! {

/// The message of `assert_panics` where the procedure did not fail.
pub const EXPECTED_PANIC: &'static str = "Expected to panic but didn't.";

/// The message that tells an expected value from the actual one, both given
/// as text.
pub open spec fn mismatch_text(expected: Seq<char>, actual: Seq<char>) -> Seq<char> {
    "Expected '"@ + expected + "' but got '"@ + actual + "'."@
}

/// Builds the message of a failed comparison from the two values' texts.
pub fn mismatch_message(expected: &str, actual: &str) -> (message: String)
    ensures
        message@ == mismatch_text(expected@, actual@),
{
    let mut message = String::from_str("Expected '");
    message.append(expected);
    message.append("' but got '");
    message.append(actual);
    message.append("'.");
    message
}

/// Fails with `message`.
pub fn fail(message: &str) -> (verdict: Result<(), String>)
    ensures
        verdict matches Err(text) && text@ == message@,
{
    Err(message.to_owned())
}

/// Holds when `actual` equals `expected`; else fails with a message that
/// shows both.
pub fn assert_equals<T: std::fmt::Display + PartialEq>(actual: T, expected: T) -> (verdict: Result<(), String>)
    ensures
        T::obeys_eq_spec() ==> (verdict is Ok <==> actual.eq_spec(&expected)),
        exists|differ: bool| #[trigger]
            call_ensures(T::ne, (&actual, &expected), differ) && (verdict is Err <==> differ),
        verdict matches Err(message) ==> exists|expected_text: String, actual_text: String|
            #[trigger] to_string_from_display_ensures::<T>(&expected, expected_text)
                && #[trigger] to_string_from_display_ensures::<T>(&actual, actual_text) && message@
                == mismatch_text(expected_text@, actual_text@),
{
    let differ = actual != expected;
    if differ {
        let expected_text = expected.to_string();
        let actual_text = actual.to_string();
        Err(mismatch_message(expected_text.as_str(), actual_text.as_str()))
    } else {
        Ok(())
    }
}

/// The message of `assert_true` where the value is false.
pub const EXPECTED_TRUE: &'static str = "Expected 'true' but got 'false'.";

/// The message of `assert_true` is that of a comparison of `false` with
/// `true`, the two being shown as `false` and `true`.
pub proof fn lemma_expected_true_is_a_mismatch()
    ensures
        EXPECTED_TRUE@ == mismatch_text("true"@, "false"@),
{
    reveal_strlit("Expected 'true' but got 'false'.");
    reveal_strlit("Expected '");
    reveal_strlit("true");
    reveal_strlit("' but got '");
    reveal_strlit("false");
    reveal_strlit("'.");
    assert(EXPECTED_TRUE@ =~= mismatch_text("true"@, "false"@));
}

/// Holds when `value` is true; else fails as comparing `value` with `true`
/// does, a `bool` being shown as `true` or `false`.
pub fn assert_true(value: bool) -> (verdict: Result<(), String>)
    ensures
        value ==> verdict is Ok,
        !value ==> (verdict matches Err(message) && message@ == EXPECTED_TRUE@),
{
    if value {
        Ok(())
    } else {
        proof {
            lemma_expected_true_is_a_mismatch();
        }
        Err(mismatch_message("true", "false"))
    }
}

/// What `assert_panics` makes of the verdict of the procedure it ran: a
/// failure is what was asked for, a success is the failure.
pub open spec fn panic_expected(outcome: Result<(), String>, verdict: Result<(), String>) -> bool {
    match outcome {
        Ok(_) => verdict matches Err(message) && message@ == EXPECTED_PANIC@,
        Err(_) => verdict is Ok,
    }
}

/// Runs `sut` once. Holds when `sut` fails, whatever its message; fails
/// when `sut` comes back without a failure.
pub fn assert_panics<F: Fn() -> Result<(), String>>(sut: F) -> (verdict: Result<(), String>)
    requires
        call_requires(sut, ()),
    ensures
        exists|outcome: Result<(), String>| #[trigger]
            call_ensures(sut, (), outcome) && panic_expected(outcome, verdict),
{
    let outcome = sut();
    let verdict = match outcome {
        Ok(_) => fail(EXPECTED_PANIC),
        Err(_) => Ok(()),
    };
    verdict
}

} // verus!
