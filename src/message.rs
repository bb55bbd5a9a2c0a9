//! The diagnostics that the shell writes to its error stream.
use vstd::prelude::*;
use crate::command::CdError;

verus! {

/// The text reported for an empty stage.
pub open spec fn syntax_error_text() -> Seq<char> {
    "syntax error near unexpected token '|'"@
}

/// The report for an empty stage.
pub fn syntax_error_message() -> (r: String)
    ensures
        r@ == syntax_error_text(),
{
    String::from_str("syntax error near unexpected token '|'")
}

/// `subject`, a colon and a space, then `reason`.
pub open spec fn failure_text(subject: Seq<char>, reason: Seq<char>) -> Seq<char> {
    subject + ": "@ + reason
}

/// The report of a failure of `subject` (a program, or `cd`) for `reason`.
pub fn failure_message(subject: &str, reason: &str) -> (r: String)
    ensures
        r@ == failure_text(subject@, reason@),
{
    let mut r = String::from_str(subject);
    r.append(": ");
    r.append(reason);
    r
}

impl CdError {
    /// The report of this error.
    pub fn message(&self) -> (r: String)
        ensures
            r@ == "cd: too many arguments"@,
    {
        match self {
            CdError::TooManyArguments => String::from_str("cd: too many arguments"),
        }
    }
}

} // verus!
