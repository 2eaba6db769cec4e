//! Errors answered to API clients, in the OpenAI error shape.
use vstd::prelude::*;
use vstd::string::*;

use crate::text::owned;

verus! {

pub const STATUS_BAD_REQUEST: u16 = 400;

pub const STATUS_UNAUTHORIZED: u16 = 401;

pub const STATUS_INTERNAL_SERVER_ERROR: u16 = 500;

/// The JSON body of an error response: `{"error": {...}}`.
#[derive(Clone, Debug)]
pub struct ErrorBody {
    pub error: ErrorDetail,
}

/// The fields of an error (`type` is written `error_type` here).
#[derive(Clone, Debug)]
pub struct ErrorDetail {
    pub message: String,
    pub error_type: String,
    pub param: Option<String>,
    pub code: Option<String>,
}

/// An error answered to the client: an HTTP status and the error fields.
#[derive(Clone, Debug)]
pub struct ApiError {
    pub status: u16,
    pub message: String,
    pub error_type: String,
    pub param: Option<String>,
    pub code: Option<String>,
}

/// The characters of an optional string.
pub open spec fn opt_view(o: Option<String>) -> Option<Seq<char>> {
    match o {
        Some(s) => Some(s@),
        None => None,
    }
}

/// An error as plain values: status, message, type, parameter and code.
pub struct ApiErrorView {
    pub status: u16,
    pub message: Seq<char>,
    pub error_type: Seq<char>,
    pub param: Option<Seq<char>>,
    pub code: Option<Seq<char>>,
}

impl View for ApiError {
    type V = ApiErrorView;

    open spec fn view(&self) -> ApiErrorView {
        ApiErrorView {
            status: self.status,
            message: self.message@,
            error_type: self.error_type@,
            param: opt_view(self.param),
            code: opt_view(self.code),
        }
    }
}

/// A rejected request: status 400, type `invalid_request_error`, naming the parameter.
pub open spec fn spec_invalid_request(message: Seq<char>, param: Option<Seq<char>>) -> ApiErrorView {
    ApiErrorView {
        status: STATUS_BAD_REQUEST,
        message,
        error_type: "invalid_request_error"@,
        param,
        code: None,
    }
}

/// A refused credential: status 401, type `authentication_error`.
pub open spec fn spec_unauthorized(message: Seq<char>) -> ApiErrorView {
    ApiErrorView {
        status: STATUS_UNAUTHORIZED,
        message,
        error_type: "authentication_error"@,
        param: None,
        code: None,
    }
}

/// A failure of the service: status 500, type `server_error`, code `internal_error`.
pub open spec fn spec_internal(message: Seq<char>) -> ApiErrorView {
    ApiErrorView {
        status: STATUS_INTERNAL_SERVER_ERROR,
        message,
        error_type: "server_error"@,
        param: None,
        code: Some("internal_error"@),
    }
}

impl ApiError {
    /// A rejected request about `param`.
    pub fn invalid_request(message: String, param: Option<&str>) -> (r: ApiError)
        ensures
            r@ == spec_invalid_request(
                message@,
                match param {
                    Some(p) => Some(p@),
                    None => None,
                },
            ),
    {
        ApiError {
            status: STATUS_BAD_REQUEST,
            message,
            error_type: owned("invalid_request_error"),
            param: match param {
                Some(p) => Some(owned(p)),
                None => None,
            },
            code: None,
        }
    }

    /// A missing or wrong credential.
    pub fn unauthorized(message: String) -> (r: ApiError)
        ensures
            r@ == spec_unauthorized(message@),
    {
        ApiError {
            status: STATUS_UNAUTHORIZED,
            message,
            error_type: owned("authentication_error"),
            param: None,
            code: None,
        }
    }

    /// A failure inside the service.
    pub fn internal(message: String) -> (r: ApiError)
        ensures
            r@ == spec_internal(message@),
    {
        ApiError {
            status: STATUS_INTERNAL_SERVER_ERROR,
            message,
            error_type: owned("server_error"),
            param: None,
            code: Some(owned("internal_error")),
        }
    }

    /// The response body for this error; the status goes in the response line.
    pub fn into_body(self) -> (r: ErrorBody)
        ensures
            r.error.message@ == self.message@,
            r.error.error_type@ == self.error_type@,
            opt_view(r.error.param) == opt_view(self.param),
            opt_view(r.error.code) == opt_view(self.code),
    {
        ErrorBody {
            error: ErrorDetail {
                message: self.message,
                error_type: self.error_type,
                param: self.param,
                code: self.code,
            },
        }
    }
}

} // verus!
