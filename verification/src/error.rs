//! Fail-closed error type for the context runtime.
//!
//! Every error maps to an explicit HTTP status; a rejected path never
//! yields a success value.

use vstd::prelude::*;

use crate::text::concat;

verus! {

#[derive(Debug, Clone)]
pub enum ContextError {
    BadRequest(String),
    RepoNotFound(String),
    TargetNotFound(String),
    Io(String),
    /// The governed assembly rejected the gathered sources (stale, missing
    /// required, unresolved authority, disallowed override, unsupported class).
    AssemblyRejected(String),
    /// A code-native payload contract failed its own validation.
    PayloadInvalid(String),
    BundleNotFound(String),
    /// The requested payload ref is not in the bundle's admitted inventory.
    RefNotAdmitted(String),
}

pub type Result<T> = std::result::Result<T, ContextError>;

impl ContextError {
    /// The HTTP status each error maps to.
    pub open spec fn spec_status(self) -> u16 {
        match self {
            ContextError::BadRequest(_) => 400,
            ContextError::RepoNotFound(_) => 404,
            ContextError::TargetNotFound(_) => 404,
            ContextError::BundleNotFound(_) => 404,
            ContextError::RefNotAdmitted(_) => 409,
            ContextError::AssemblyRejected(_) => 422,
            ContextError::PayloadInvalid(_) => 422,
            ContextError::Io(_) => 500,
        }
    }

    /// The detail carried by the error.
    pub open spec fn detail(self) -> Seq<char> {
        match self {
            ContextError::BadRequest(s) => s@,
            ContextError::RepoNotFound(s) => s@,
            ContextError::TargetNotFound(s) => s@,
            ContextError::Io(s) => s@,
            ContextError::AssemblyRejected(s) => s@,
            ContextError::PayloadInvalid(s) => s@,
            ContextError::BundleNotFound(s) => s@,
            ContextError::RefNotAdmitted(s) => s@,
        }
    }

    /// The fixed text that precedes the detail in the error message.
    pub open spec fn message_prefix(self) -> Seq<char> {
        match self {
            ContextError::BadRequest(_) => "bad request: "@,
            ContextError::RepoNotFound(_) => "repo root not found or not a directory: "@,
            ContextError::TargetNotFound(_) => "target file not found in repo: "@,
            ContextError::Io(_) => "io error: "@,
            ContextError::AssemblyRejected(_) => "context assembly rejected (fail-closed): "@,
            ContextError::PayloadInvalid(_) => "payload contract invalid (fail-closed): "@,
            ContextError::BundleNotFound(_) => "context bundle not found: "@,
            ContextError::RefNotAdmitted(_) => "ref not admitted in bundle (scope escape rejected): "@,
        }
    }

    /// HTTP status code of the error.
    pub fn status(&self) -> (code: u16)
        ensures
            code == self.spec_status(),
    {
        match self {
            ContextError::BadRequest(_) => 400,
            ContextError::RepoNotFound(_) | ContextError::TargetNotFound(_)
            | ContextError::BundleNotFound(_) => 404,
            ContextError::RefNotAdmitted(_) => 409,
            ContextError::AssemblyRejected(_) | ContextError::PayloadInvalid(_) => 422,
            ContextError::Io(_) => 500,
        }
    }

    /// The error's message, as shown in the fail-closed response body.
    pub fn message(&self) -> (m: String)
        ensures
            m@ == self.message_prefix() + self.detail(),
    {
        match self {
            ContextError::BadRequest(s) => concat("bad request: ", s.as_str()),
            ContextError::RepoNotFound(s) => concat(
                "repo root not found or not a directory: ",
                s.as_str(),
            ),
            ContextError::TargetNotFound(s) => concat("target file not found in repo: ", s.as_str()),
            ContextError::Io(s) => concat("io error: ", s.as_str()),
            ContextError::AssemblyRejected(s) => concat(
                "context assembly rejected (fail-closed): ",
                s.as_str(),
            ),
            ContextError::PayloadInvalid(s) => concat(
                "payload contract invalid (fail-closed): ",
                s.as_str(),
            ),
            ContextError::BundleNotFound(s) => concat("context bundle not found: ", s.as_str()),
            ContextError::RefNotAdmitted(s) => concat(
                "ref not admitted in bundle (scope escape rejected): ",
                s.as_str(),
            ),
        }
    }
}

/// Every error is a client or server failure status, never a success.
pub proof fn lemma_errors_fail_closed(e: ContextError)
    ensures
        400 <= e.spec_status() <= 599,
        e.spec_status() == 400 || e.spec_status() == 404 || e.spec_status() == 409
            || e.spec_status() == 422 || e.spec_status() == 500,
{
}

} // verus!
