//! The errors with which a run or a call ends.

use vstd::prelude::*;

use crate::text::decimal;
use crate::text::push_decimal;

verus! {

/// Why the library ended a script, or refused it a call.
#[derive(Debug, PartialEq, Eq)]
pub enum ScriptError {
    /// The script has made as many tool calls as it may.
    CallBudget(usize),
    /// The run has taken as long as it may.
    Deadline,
    /// The run has taken as long as it may, seen while promise jobs were run.
    JobDeadline,
    /// As many promise jobs have been run as may be.
    JobBudget(usize),
    /// The script made the engine queue a job that waits for time or for a future.
    UnsupportedJob,
    /// Results cannot be fetched in this run.
    FetchUnavailable,
    /// A result was to be fetched without a cursor.
    EmptyCursor,
    /// The script waits for a promise that nothing will settle.
    Hung,
    /// The script ended with an error of its own, of which this is the text.
    Rejected(String),
    /// The run has taken as many rounds as it may.
    DriveBudget,
}

impl Clone for ScriptError {
    fn clone(&self) -> (copy: Self)
        ensures
            copy == *self,
    {
        match self {
            ScriptError::CallBudget(n) => ScriptError::CallBudget(*n),
            ScriptError::Deadline => ScriptError::Deadline,
            ScriptError::JobDeadline => ScriptError::JobDeadline,
            ScriptError::JobBudget(n) => ScriptError::JobBudget(*n),
            ScriptError::UnsupportedJob => ScriptError::UnsupportedJob,
            ScriptError::FetchUnavailable => ScriptError::FetchUnavailable,
            ScriptError::EmptyCursor => ScriptError::EmptyCursor,
            ScriptError::Hung => ScriptError::Hung,
            ScriptError::Rejected(reason) => ScriptError::Rejected(reason.clone()),
            ScriptError::DriveBudget => ScriptError::DriveBudget,
        }
    }
}

impl ScriptError {
    /// The message of the error.
    pub open spec fn text(self) -> Seq<char> {
        match self {
            ScriptError::CallBudget(n) => "toolport.call budget exceeded ("@ + decimal(n as nat)
                + " calls)"@,
            ScriptError::Deadline => "toolport script wall-clock deadline exceeded"@,
            ScriptError::JobDeadline =>
                "toolport script wall-clock deadline exceeded during promise jobs"@,
            ScriptError::JobBudget(n) => "toolport script promise-job budget exceeded ("@ + decimal(
                n as nat,
            ) + " jobs)"@,
            ScriptError::UnsupportedJob =>
                "toolport script used unsupported async/timer jobs inside code mode"@,
            ScriptError::FetchUnavailable => "toolport.fetchResult is unavailable in this context"@,
            ScriptError::EmptyCursor => "toolport.fetchResult requires a non-empty cursor"@,
            ScriptError::Hung =>
                "toolport script hung on an unresolved Promise (no pending tool calls)"@,
            ScriptError::Rejected(reason) => "Uncaught "@ + reason@,
            ScriptError::DriveBudget => "toolport script exceeded internal async drive budget"@,
        }
    }

    /// The message of the error.
    pub fn message(&self) -> (text: String)
        ensures
            text@ == self.text(),
    {
        match self {
            ScriptError::CallBudget(n) => numbered(
                "toolport.call budget exceeded (",
                *n,
                " calls)",
            ),
            ScriptError::Deadline => "toolport script wall-clock deadline exceeded".to_owned(),
            ScriptError::JobDeadline =>
                "toolport script wall-clock deadline exceeded during promise jobs".to_owned(),
            ScriptError::JobBudget(n) => numbered(
                "toolport script promise-job budget exceeded (",
                *n,
                " jobs)",
            ),
            ScriptError::UnsupportedJob =>
                "toolport script used unsupported async/timer jobs inside code mode".to_owned(),
            ScriptError::FetchUnavailable =>
                "toolport.fetchResult is unavailable in this context".to_owned(),
            ScriptError::EmptyCursor =>
                "toolport.fetchResult requires a non-empty cursor".to_owned(),
            ScriptError::Hung =>
                "toolport script hung on an unresolved Promise (no pending tool calls)".to_owned(),
            ScriptError::Rejected(reason) => {
                let mut text: String = "Uncaught ".to_owned();
                text.append(reason.as_str());
                text
            },
            ScriptError::DriveBudget =>
                "toolport script exceeded internal async drive budget".to_owned(),
        }
    }
}

fn numbered(before: &str, n: usize, after: &str) -> (text: String)
    ensures
        text@ == before@ + decimal(n as nat) + after@,
{
    let mut text: String = before.to_owned();
    push_decimal(&mut text, n);
    text.append(after);
    text
}

} // verus!
