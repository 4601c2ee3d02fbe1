//! The errors the library reports, each with the text shown to the user.

use vstd::prelude::*;
use vstd::string::StringExecFns;

verus! {

/// Everything that can go wrong in the library's own logic.
#[derive(Debug, PartialEq, Eq)]
pub enum RewindError {
    /// A provider name that is none of groq, gemini or openai.
    UnknownProvider { name: String },
    /// `config set` read an empty key from the hidden prompt.
    EmptyApiKey,
    /// First-time setup read an empty key from the hidden prompt.
    NoKeyEntered,
    /// No API key in the environment or in the configuration.
    ApiKeyNotConfigured,
    /// Neither staged nor unstaged changes to describe.
    NoChanges,
    /// The completion reply is not JSON.
    UndecodableResponse,
    /// The completion reply carries no message content.
    MissingResponseContent,
    /// The API answered with a non-retryable error status.
    ApiError { body: String },
    /// The API could not be reached after all attempts.
    ConnectionFailed,
}

/// The text shown for an error.
pub open spec fn error_text(e: RewindError) -> Seq<char> {
    match e {
        RewindError::UnknownProvider { name } => "Unknown provider: '"@ + name@
            + "'. Supported providers are: groq, gemini, openai."@,
        RewindError::EmptyApiKey => "No API key provided. Aborting."@,
        RewindError::NoKeyEntered => "No API key provided. Exiting."@,
        RewindError::ApiKeyNotConfigured =>
            "API key not configured. Run `rewind config set <provider>` to set one."@,
        RewindError::NoChanges => "No changes found to generate a commit message for."@,
        RewindError::UndecodableResponse => "error decoding response body"@,
        RewindError::MissingResponseContent => "Failed to parse response content"@,
        RewindError::ApiError { body } => "API returned an error: "@ + body@,
        RewindError::ConnectionFailed => "Failed to connect to the AI API"@,
    }
}

impl RewindError {
    /// The text shown to the user for this error.
    pub fn message(&self) -> (r: String)
        ensures
            r@ == error_text(*self),
    {
        match self {
            RewindError::UnknownProvider { name } => {
                let mut r = String::from_str("Unknown provider: '");
                r.append(name.as_str());
                r.append("'. Supported providers are: groq, gemini, openai.");
                r
            },
            RewindError::EmptyApiKey => String::from_str("No API key provided. Aborting."),
            RewindError::NoKeyEntered => String::from_str("No API key provided. Exiting."),
            RewindError::ApiKeyNotConfigured => String::from_str(
                "API key not configured. Run `rewind config set <provider>` to set one.",
            ),
            RewindError::NoChanges => String::from_str(
                "No changes found to generate a commit message for.",
            ),
            RewindError::UndecodableResponse => String::from_str("error decoding response body"),
            RewindError::MissingResponseContent => String::from_str(
                "Failed to parse response content",
            ),
            RewindError::ApiError { body } => {
                let mut r = String::from_str("API returned an error: ");
                r.append(body.as_str());
                r
            },
            RewindError::ConnectionFailed => String::from_str("Failed to connect to the AI API"),
        }
    }
}

} // verus!
