//! How a run ends: one value, or one error.

use serde_json::Value;
use vstd::prelude::*;

use crate::engine::native_error;
use crate::engine::native_error_text;
use crate::error::ScriptError;
use crate::json::json_text;
use crate::json::null_value;

verus! {

/// The outcome of running a script.
#[derive(Debug)]
pub struct ScriptOutcome {
    /// The value that the script returned, `null` if it returned none. It has a meaning only
    /// where there is no error.
    pub value: Value,
    /// How many tool calls of the script were run. Deferred calls that still waited when the run
    /// ended are not among them.
    pub calls: usize,
    /// What went wrong, if the script threw, hit a limit or is no script.
    pub error: Option<String>,
}

impl Clone for ScriptOutcome {
    fn clone(&self) -> (copy: Self)
        ensures
            json_text(copy.value) == json_text(self.value),
            copy.calls == self.calls,
            copy.error == self.error,
    {
        let error: Option<String> = match &self.error {
            Some(text) => Some(text.clone()),
            None => None,
        };
        ScriptOutcome { value: self.value.clone(), calls: self.calls, error: error }
    }
}

impl ScriptOutcome {
    /// Whether the outcome is a failure after so many calls: an error, and `null` for a value.
    pub open spec fn is_failure(self, calls: usize) -> bool {
        &&& self.calls == calls
        &&& json_text(self.value) == "null"@
        &&& self.error is Some
    }

    /// Whether the outcome is a failure with this error of the library. The text is the one that
    /// the engine gives for an error with its message.
    pub open spec fn fails_by(self, calls: usize, error: ScriptError) -> bool {
        self.fails_with(calls, native_error(error.text()))
    }

    /// Whether the outcome is a failure with this text.
    pub open spec fn fails_with(self, calls: usize, text: Seq<char>) -> bool {
        &&& self.is_failure(calls)
        &&& self.error->0@ == text
    }
}

/// The outcome of a script that returned a value.
pub fn completed(value: Value, calls: usize) -> (outcome: ScriptOutcome)
    ensures
        outcome == (ScriptOutcome { value, calls, error: None }),
{
    ScriptOutcome { value: value, calls: calls, error: None }
}

/// The outcome of a run that failed with an error of which this is the text.
pub fn fail(calls: usize, text: String) -> (outcome: ScriptOutcome)
    ensures
        outcome.fails_with(calls, text@),
{
    ScriptOutcome { value: null_value(), calls: calls, error: Some(text) }
}

/// The outcome of a run that the library ended.
pub fn aborted(calls: usize, error: &ScriptError) -> (outcome: ScriptOutcome)
    ensures
        outcome.fails_by(calls, *error),
{
    fail(calls, native_error_text(error.message()))
}

/// The outcome where the engine could not be set up, for the reason given.
pub fn no_context(reason: &str) -> (outcome: ScriptOutcome)
    ensures
        outcome.fails_with(0, "toolport code mode: failed to create JS context: "@ + reason@),
{
    let mut text: String = "toolport code mode: failed to create JS context: ".to_owned();
    text.append(reason);
    fail(0, text)
}

} // verus!
