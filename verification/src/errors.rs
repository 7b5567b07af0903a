//! The errors GitHub calls end in, and the one line a person reads for any
//! error.
use vstd::prelude::*;
use crate::text::{string_of, concat2};
use crate::chars::{find_from, lit, find_exec};

verus! {

/// How a call to GitHub failed.
#[derive(Debug, Clone, PartialEq, Eq)]
pub enum GitHubError {
    /// The token was refused.
    AuthenticationFailed,
    /// The thing asked for does not exist (yet).
    NotFound,
    /// The thing asked for is gone for good.
    Gone,
    /// GitHub answered with an error.
    ApiError(String),
    /// The request did not get through.
    Network(String),
}

/// What an error says, in one line.
pub open spec fn error_text(e: GitHubError) -> Seq<char> {
    match e {
        GitHubError::AuthenticationFailed => "Authentication failed"@,
        GitHubError::NotFound => "Not found"@,
        GitHubError::Gone => "Gone"@,
        GitHubError::ApiError(m) => "API error: "@ + m@,
        GitHubError::Network(m) => "Network error: "@ + m@,
    }
}

impl GitHubError {
    /// What the error says, in one line.
    pub fn message(&self) -> (r: String)
        ensures
            r@ == error_text(*self),
    {
        match self {
            GitHubError::AuthenticationFailed => string_of("Authentication failed"),
            GitHubError::NotFound => string_of("Not found"),
            GitHubError::Gone => string_of("Gone"),
            GitHubError::ApiError(m) => concat2("API error: ", m.as_str()),
            GitHubError::Network(m) => concat2("Network error: ", m.as_str()),
        }
    }

    /// Whether this is GitHub saying that nothing changed, which is no
    /// failure worth reporting.
    pub fn is_not_modified(&self) -> (r: bool)
        ensures
            r == (*self matches GitHubError::ApiError(m) && find_from(m@, "Not modified"@, 0) is Some),
    {
        match self {
            GitHubError::ApiError(m) => {
                let v = crate::text::chars_of(m.as_str());
                find_exec(v.as_slice(), lit("Not modified").as_slice(), 0).is_some()
            },
            _ => false,
        }
    }
}

/// The line shown for an error that says `message`.
pub open spec fn user_message(message: Seq<char>) -> Seq<char> {
    "Error: "@ + message
}

/// Renders what an error says as the shared `Error: ...` line.
pub fn user_message_from(message: &str) -> (r: String)
    ensures
        r@ == user_message(message@),
{
    concat2("Error: ", message)
}

} // verus!
