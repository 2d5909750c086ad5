use vstd::prelude::*;

verus! {

/// Errors returned by the library: a request that breaks a documented rule,
/// or an internal inconsistency that a well-formed store never shows.
#[derive(Debug, Clone, PartialEq, Eq)]
pub enum McpError {
    InvalidRequest(String),
    Internal(String),
}

/// `e` refuses a request with the message `message`.
pub open spec fn invalid_with(e: McpError, message: Seq<char>) -> bool {
    e matches McpError::InvalidRequest(m) && m@ == message
}

/// `e` reports an internal inconsistency with the message `message`.
pub open spec fn internal_with(e: McpError, message: Seq<char>) -> bool {
    e matches McpError::Internal(m) && m@ == message
}

/// Builds an `InvalidRequest` error carrying the given message.
pub fn invalid(message: &str) -> (e: McpError)
    ensures
        e matches McpError::InvalidRequest(m) && m@ == message@,
{
    McpError::InvalidRequest(message.to_owned())
}

/// Builds an `Internal` error carrying the given message.
pub fn internal(message: &str) -> (e: McpError)
    ensures
        e matches McpError::Internal(m) && m@ == message@,
{
    McpError::Internal(message.to_owned())
}

} // verus!
