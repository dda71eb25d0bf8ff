//! Errors that the dispatcher answers with, and how each is reported.

use vstd::prelude::*;
use vstd::string::*;

use crate::text::{decimal, decimal_text};

verus! {

/// Why a request is not answered by an upstream.
#[derive(Debug)]
pub enum DispatchError {
    /// The body exceeded this many bytes.
    PayloadTooLarge(usize),
    BadRequest(String),
    Unauthorized(String),
    RateLimited,
    UpstreamUnavailable(String),
    Internal(String),
}

/// An error response: its status, and the code and message of its JSON body.
#[derive(Debug)]
pub struct ErrorReply {
    pub status: u16,
    pub code: &'static str,
    pub message: String,
}

impl DispatchError {
    /// The status that the error is answered with.
    pub open spec fn spec_status(&self) -> u16 {
        match self {
            DispatchError::PayloadTooLarge(_) => 413,
            DispatchError::BadRequest(_) => 400,
            DispatchError::Unauthorized(_) => 401,
            DispatchError::RateLimited => 429,
            DispatchError::UpstreamUnavailable(_) => 502,
            DispatchError::Internal(_) => 500,
        }
    }

    /// The code in the body of the answer.
    pub open spec fn spec_code(&self) -> Seq<char> {
        match self {
            DispatchError::PayloadTooLarge(_) => "PAYLOAD_TOO_LARGE"@,
            DispatchError::BadRequest(_) => "BAD_REQUEST"@,
            DispatchError::Unauthorized(_) => "UNAUTHORIZED"@,
            DispatchError::RateLimited => "RATE_LIMITED"@,
            DispatchError::UpstreamUnavailable(_) => "BAD_GATEWAY"@,
            DispatchError::Internal(_) => "INTERNAL_ERROR"@,
        }
    }

    /// What the error says.
    pub open spec fn spec_message(&self) -> Seq<char> {
        match self {
            DispatchError::PayloadTooLarge(limit) => "body too large: "@ + decimal_text(
                *limit as nat,
            ) + " bytes"@,
            DispatchError::BadRequest(detail) => "invalid request: "@ + detail@,
            DispatchError::Unauthorized(detail) => "unauthorized: "@ + detail@,
            DispatchError::RateLimited => "rate limit exceeded"@,
            DispatchError::UpstreamUnavailable(detail) => "upstream unavailable: "@ + detail@,
            DispatchError::Internal(detail) => "internal error: "@ + detail@,
        }
    }

    /// What the error says.
    pub fn message(&self) -> (message: String)
        ensures
            message@ == self.spec_message(),
    {
        match self {
            DispatchError::PayloadTooLarge(limit) => {
                let mut message = "body too large: ".to_string();
                message.append(decimal(*limit as u64).as_str());
                message.append(" bytes");
                message
            },
            DispatchError::BadRequest(detail) => "invalid request: ".to_string().concat(detail.as_str()),
            DispatchError::Unauthorized(detail) => "unauthorized: ".to_string().concat(detail.as_str()),
            DispatchError::RateLimited => "rate limit exceeded".to_string(),
            DispatchError::UpstreamUnavailable(detail) => "upstream unavailable: ".to_string().concat(
                detail.as_str(),
            ),
            DispatchError::Internal(detail) => "internal error: ".to_string().concat(detail.as_str()),
        }
    }

    /// The response that reports the error.
    pub fn into_response(self) -> (reply: ErrorReply)
        ensures
            reply.status == self.spec_status(),
            reply.code@ == self.spec_code(),
            reply.message@ == self.spec_message(),
    {
        let (status, code): (u16, &'static str) = match &self {
            DispatchError::PayloadTooLarge(_) => (413, "PAYLOAD_TOO_LARGE"),
            DispatchError::BadRequest(_) => (400, "BAD_REQUEST"),
            DispatchError::Unauthorized(_) => (401, "UNAUTHORIZED"),
            DispatchError::RateLimited => (429, "RATE_LIMITED"),
            DispatchError::UpstreamUnavailable(_) => (502, "BAD_GATEWAY"),
            DispatchError::Internal(_) => (500, "INTERNAL_ERROR"),
        };
        ErrorReply { status, code, message: self.message() }
    }
}

/// Each error has its own status and code, and says what it is about.
pub proof fn errors_tell_what_went_wrong(limit: usize, detail: String)
    ensures
        ({
            let error = DispatchError::PayloadTooLarge(limit);
            &&& error.spec_status() == 413 && error.spec_code() == "PAYLOAD_TOO_LARGE"@
            &&& error.spec_message() == "body too large: "@ + decimal_text(limit as nat)
                + " bytes"@
        }),
        ({
            let error = DispatchError::BadRequest(detail);
            &&& error.spec_status() == 400 && error.spec_code() == "BAD_REQUEST"@
            &&& error.spec_message() == "invalid request: "@ + detail@
        }),
        ({
            let error = DispatchError::Unauthorized(detail);
            &&& error.spec_status() == 401 && error.spec_code() == "UNAUTHORIZED"@
            &&& error.spec_message() == "unauthorized: "@ + detail@
        }),
        ({
            let error = DispatchError::RateLimited;
            &&& error.spec_status() == 429 && error.spec_code() == "RATE_LIMITED"@
            &&& error.spec_message() == "rate limit exceeded"@
        }),
        ({
            let error = DispatchError::UpstreamUnavailable(detail);
            &&& error.spec_status() == 502 && error.spec_code() == "BAD_GATEWAY"@
            &&& error.spec_message() == "upstream unavailable: "@ + detail@
        }),
        ({
            let error = DispatchError::Internal(detail);
            &&& error.spec_status() == 500 && error.spec_code() == "INTERNAL_ERROR"@
            &&& error.spec_message() == "internal error: "@ + detail@
        }),
{
}

} // verus!
