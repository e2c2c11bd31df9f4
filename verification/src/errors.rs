//! Error taxonomy for the gateway core.
//!
//! Startup failures (bad configuration, port already taken) are fatal and are
//! handled by the shell before this library runs; everything here is a
//! per-request failure that must be reported to the caller without ever
//! taking the server down.

use vstd::prelude::*;

verus! {

/// Failure of an endpoint-discovery query answered by the controller.
#[derive(Clone, Copy, Debug, PartialEq, Eq, Structural)]
pub enum UriError {
    /// The requested runtime name is not declared in the configuration.
    UnknownRuntime,
    /// The runtime is declared but has no live endpoint and no restart is
    /// owed any more (restart budget exhausted, shutdown in progress, or the
    /// bounded wait for readiness elapsed).
    RuntimeUnavailable,
}

/// Any per-request failure surfaced by the gateway as an HTTP error response.
#[derive(Clone, Copy, Debug, PartialEq, Eq, Structural)]
pub enum GatewayError {
    /// The named runtime is not declared in the configuration.
    UnknownRuntime,
    /// The named runtime has no live endpoint and none is owed.
    RuntimeUnavailable,
    /// The backend could not be reached or timed out.
    NetworkError,
    /// The caller's request body is malformed (e.g. no manifest at all).
    InvalidRequest,
    /// The backend's reply is not well-formed JSON.
    BadBackendReply,
    /// The persisted pipeline definition does not exist.
    PipelineMissing,
    /// Reading or writing the persisted pipeline definition failed.
    IoError,
}

impl GatewayError {
    /// The HTTP status code under which this failure is reported.
    ///
    /// Client mistakes map to 4xx, backend and disk failures to 5xx; no
    /// failure maps to a success status.
    pub fn http_status(&self) -> (code: u16)
        ensures
            code == self.status_spec(),
            400 <= code < 600,
    {
        match self {
            GatewayError::UnknownRuntime => 400,
            GatewayError::RuntimeUnavailable => 503,
            GatewayError::NetworkError => 502,
            GatewayError::InvalidRequest => 400,
            GatewayError::BadBackendReply => 502,
            GatewayError::PipelineMissing => 404,
            GatewayError::IoError => 500,
        }
    }

    pub open spec fn status_spec(&self) -> u16 {
        match self {
            GatewayError::UnknownRuntime => 400u16,
            GatewayError::RuntimeUnavailable => 503u16,
            GatewayError::NetworkError => 502u16,
            GatewayError::InvalidRequest => 400u16,
            GatewayError::BadBackendReply => 502u16,
            GatewayError::PipelineMissing => 404u16,
            GatewayError::IoError => 500u16,
        }
    }

    /// A short, distinct description of the failure, used as the body of the
    /// error response.
    pub fn describe(&self) -> (text: String)
        ensures
            text@ == self.describe_spec(),
    {
        match self {
            GatewayError::UnknownRuntime => String::from_str("unknown runtime"),
            GatewayError::RuntimeUnavailable => String::from_str("runtime unavailable"),
            GatewayError::NetworkError => String::from_str("backend unreachable"),
            GatewayError::InvalidRequest => String::from_str("invalid request"),
            GatewayError::BadBackendReply => String::from_str("malformed backend reply"),
            GatewayError::PipelineMissing => String::from_str("pipeline not found"),
            GatewayError::IoError => String::from_str("pipeline i/o failure"),
        }
    }

    pub open spec fn describe_spec(&self) -> Seq<char> {
        match self {
            GatewayError::UnknownRuntime => "unknown runtime"@,
            GatewayError::RuntimeUnavailable => "runtime unavailable"@,
            GatewayError::NetworkError => "backend unreachable"@,
            GatewayError::InvalidRequest => "invalid request"@,
            GatewayError::BadBackendReply => "malformed backend reply"@,
            GatewayError::PipelineMissing => "pipeline not found"@,
            GatewayError::IoError => "pipeline i/o failure"@,
        }
    }
}

/// Lifts a controller-level discovery failure into the gateway taxonomy.
pub fn uri_error_to_gateway(e: UriError) -> (g: GatewayError)
    ensures
        g == uri_error_to_gateway_spec(e),
{
    match e {
        UriError::UnknownRuntime => GatewayError::UnknownRuntime,
        UriError::RuntimeUnavailable => GatewayError::RuntimeUnavailable,
    }
}

pub open spec fn uri_error_to_gateway_spec(e: UriError) -> GatewayError {
    match e {
        UriError::UnknownRuntime => GatewayError::UnknownRuntime,
        UriError::RuntimeUnavailable => GatewayError::RuntimeUnavailable,
    }
}

} // verus!
