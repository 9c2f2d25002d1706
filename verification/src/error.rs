//! Errors that a tool call can end in.

use vstd::prelude::*;

verus! {

/// Whose fault a failed call is.
#[derive(Debug, Clone, Copy, PartialEq, Eq, Structural)]
pub enum ErrorKind {
    /// The arguments of the call.
    InvalidParams,
    /// The server or the system below it.
    Internal,
}

/// A failed tool call.
#[derive(Debug)]
pub struct ToolError {
    pub kind: ErrorKind,
    pub message: String,
}

impl ToolError {
    /// Whether the error is of `kind` and says `message`.
    pub open spec fn says(self, kind: ErrorKind, message: Seq<char>) -> bool {
        self.kind == kind && self.message@ == message
    }
}

/// Wraps an input-simulation failure as an internal error.
pub fn input_error(message: &str) -> (r: ToolError)
    ensures
        r.says(ErrorKind::Internal, "Input simulation failure: "@ + message@),
{
    let mut text: String = "Input simulation failure: ".to_string();
    text.append(message);
    ToolError { kind: ErrorKind::Internal, message: text }
}

/// Wraps an invalid tool argument as an invalid-params error.
pub fn invalid_params(message: String) -> (r: ToolError)
    ensures
        r.says(ErrorKind::InvalidParams, message@),
{
    ToolError { kind: ErrorKind::InvalidParams, message }
}

/// Wraps an internal (serialization/IO) failure as an internal error.
pub fn internal_error(message: String) -> (r: ToolError)
    ensures
        r.says(ErrorKind::Internal, message@),
{
    ToolError { kind: ErrorKind::Internal, message }
}

} // verus!
