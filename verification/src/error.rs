//! App-wide error type, coarse on purpose: each variant carries a message
//! and names the subsystem that failed.
use vstd::prelude::*;

use crate::text::{chars_of, push_str, string_from_chars};

verus! {

/// Errors surfaced to the frontend.
#[derive(Debug, Clone, PartialEq, Eq)]
pub enum AppError {
    /// SQLite / migration / pool problems.
    Database(String),
    /// Talking to the server failed: refused connection, timeout, codec
    /// error, non-auth HTTP error. Not for auth rejections.
    Transport(String),
    /// The server rejected the credentials (401).
    Unauthenticated(String),
    /// Authenticated but not allowed (403).
    Forbidden(String),
    /// No usable local auth state.
    AuthNotConfigured(String),
    /// The secure credential store failed.
    SecureStorage(String),
    /// Anything not yet mapped to a richer variant.
    Internal(String),
    /// The server does not offer what was asked for.
    Unsupported(String),
    /// A compare-and-swap or scope check failed.
    Conflict { code: String, message: String },
}

/// The text an error displays as.
pub open spec fn error_text(e: AppError) -> Seq<char> {
    match e {
        AppError::Database(m) => "database error: "@ + m@,
        AppError::Transport(m) => "transport error: "@ + m@,
        AppError::Unauthenticated(m) => "unauthenticated: "@ + m@,
        AppError::Forbidden(m) => "forbidden: "@ + m@,
        AppError::AuthNotConfigured(m) => "auth not configured: "@ + m@,
        AppError::SecureStorage(m) => "secure storage error: "@ + m@,
        AppError::Internal(m) => "internal error: "@ + m@,
        AppError::Unsupported(m) => "unsupported: "@ + m@,
        AppError::Conflict { code, message } => "conflict ("@ + code@ + "): "@ + message@,
    }
}

impl AppError {
    /// The message, prefixed by what kind of failure it is.
    pub fn to_string(&self) -> (r: String)
        ensures
            r@ == error_text(*self),
    {
        let (prefix, m) = match self {
            AppError::Database(m) => ("database error: ", m),
            AppError::Transport(m) => ("transport error: ", m),
            AppError::Unauthenticated(m) => ("unauthenticated: ", m),
            AppError::Forbidden(m) => ("forbidden: ", m),
            AppError::AuthNotConfigured(m) => ("auth not configured: ", m),
            AppError::SecureStorage(m) => ("secure storage error: ", m),
            AppError::Internal(m) => ("internal error: ", m),
            AppError::Unsupported(m) => ("unsupported: ", m),
            AppError::Conflict { code, message } => {
                let mut v = chars_of("conflict (");
                push_str(&mut v, code.as_str());
                push_str(&mut v, "): ");
                push_str(&mut v, message.as_str());
                return string_from_chars(&v);
            },
        };
        let mut v = chars_of(prefix);
        push_str(&mut v, m.as_str());
        string_from_chars(&v)
    }
}

} // verus!
