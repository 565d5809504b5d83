//! What went wrong with a request: at the service, or here.

use vstd::prelude::*;
use vstd::string::StringExecFns;
use crate::text::{decimal, push_decimal};
use crate::ugoira::error::TranscodeError;

verus! {

#[derive(Debug)]
pub enum ApiError {
    /// The service refused: its status code and its message.
    External(u16, String),
    /// The request failed on this side.
    Internal(String),
}

/// The text of an error that carries a status and a message.
pub open spec fn external_text(code: u16, message: Seq<char>) -> Seq<char> {
    decimal(code as nat) + seq![':', ' '] + message
}

impl ApiError {
    /// The error that a failed transport stands for: an external error
    /// with the status and no message where the service answered with a
    /// status, else an internal one.
    pub fn from_status(status: Option<u16>) -> (e: ApiError)
        ensures
            match status {
                Some(code) => e is External && e->External_0 == code && e->External_1@.len() == 0,
                None => e is Internal && e->Internal_0@ == "Unknown Error"@,
            },
    {
        match status {
            Some(code) => ApiError::External(code, String::new()),
            None => ApiError::Internal(String::from_str("Unknown Error")),
        }
    }

    /// The error that a failed transcode is answered with: its status and
    /// its reason.
    pub fn from_transcode(error: &TranscodeError) -> (e: ApiError)
        ensures
            e is External,
            e->External_0 == error.status(),
            e->External_1@ == error.text(),
    {
        ApiError::External(error.status_code(), error.reason())
    }

    /// The status code under which the error is shown: its own for an
    /// external error, 500 for an internal one.
    pub fn status_code(&self) -> (code: u16)
        ensures
            code == match self {
                ApiError::External(c, _) => *c,
                ApiError::Internal(_) => 500u16,
            },
    {
        match self {
            ApiError::External(code, _) => *code,
            ApiError::Internal(_) => 500,
        }
    }

    /// The error as text: status, colon, blank and message for an external
    /// error, the message alone for an internal one.
    pub fn message(&self) -> (s: String)
        ensures
            s@ == match self {
                ApiError::External(code, m) => external_text(*code, m@),
                ApiError::Internal(m) => m@,
            },
    {
        match self {
            ApiError::External(code, m) => {
                let mut s = String::new();
                push_decimal(&mut s, *code as u64);
                proof {
                    reveal_strlit(": ");
                }
                s.append(": ");
                s.append(m.as_str());
                assert(s@ =~= external_text(*code, m@));
                s
            },
            ApiError::Internal(m) => m.clone(),
        }
    }
}

} // verus!
