//! Errors of the API, with the status that each is answered with.

use crate::text;
use vstd::prelude::*;

verus! {

/// Status of an error response.
#[derive(Clone, Copy, Debug, PartialEq, Eq, Structural)]
pub enum ErrorStatus {
    /// 400
    BadRequest,
    /// 401
    Unauthorized,
    /// 403
    Forbidden,
    /// 404
    NotFound,
    /// 409
    Conflict,
    /// 500
    Internal,
    /// 504
    GatewayTimeout,
}

impl ErrorStatus {
    /// The HTTP status code.
    pub open spec fn code_number(self) -> u16 {
        match self {
            ErrorStatus::BadRequest => 400,
            ErrorStatus::Unauthorized => 401,
            ErrorStatus::Forbidden => 403,
            ErrorStatus::NotFound => 404,
            ErrorStatus::Conflict => 409,
            ErrorStatus::Internal => 500,
            ErrorStatus::GatewayTimeout => 504,
        }
    }

    /// The HTTP status code.
    pub fn as_u16(&self) -> (r: u16)
        ensures
            r == self.code_number(),
    {
        match self {
            ErrorStatus::BadRequest => 400,
            ErrorStatus::Unauthorized => 401,
            ErrorStatus::Forbidden => 403,
            ErrorStatus::NotFound => 404,
            ErrorStatus::Conflict => 409,
            ErrorStatus::Internal => 500,
            ErrorStatus::GatewayTimeout => 504,
        }
    }
}

/// Body of an error response.
#[derive(Debug)]
pub struct ErrorResponse {
    /// The message.
    pub error: String,
    /// A stable code for programs, where there is one.
    pub code: Option<String>,
}

/// An error with the status it is answered with.
#[derive(Debug)]
pub struct AppError {
    /// The status.
    pub status: ErrorStatus,
    /// The message.
    pub error: String,
    /// A stable code for programs, where there is one.
    pub code: Option<String>,
}

/// The model of an error.
pub struct ErrorView {
    /// The status.
    pub status: ErrorStatus,
    /// The message.
    pub error: Seq<char>,
    /// The code.
    pub code: Option<Seq<char>>,
}

impl View for AppError {
    type V = ErrorView;

    open spec fn view(&self) -> ErrorView {
        ErrorView { status: self.status, error: self.error@, code: text::opt(self.code) }
    }
}

/// An error without a code.
pub open spec fn plain(status: ErrorStatus, message: Seq<char>) -> ErrorView {
    ErrorView { status, error: message, code: None }
}

/// An error with a code.
pub open spec fn coded(status: ErrorStatus, message: Seq<char>, code: Seq<char>) -> ErrorView {
    ErrorView { status, error: message, code: Some(code) }
}

impl AppError {
    /// The request cannot be served as it stands.
    pub fn bad_request(message: &str) -> (r: AppError)
        ensures
            r@ == plain(ErrorStatus::BadRequest, message@),
    {
        AppError { status: ErrorStatus::BadRequest, error: message.to_string(), code: None }
    }

    /// What the request names is not there.
    pub fn not_found(message: &str) -> (r: AppError)
        ensures
            r@ == plain(ErrorStatus::NotFound, message@),
    {
        AppError { status: ErrorStatus::NotFound, error: message.to_string(), code: None }
    }

    /// The request does not fit the present state.
    pub fn conflict(message: &str) -> (r: AppError)
        ensures
            r@ == plain(ErrorStatus::Conflict, message@),
    {
        AppError { status: ErrorStatus::Conflict, error: message.to_string(), code: None }
    }

    /// The caller has not shown who they are.
    pub fn unauthorized(message: &str) -> (r: AppError)
        ensures
            r@ == plain(ErrorStatus::Unauthorized, message@),
    {
        AppError { status: ErrorStatus::Unauthorized, error: message.to_string(), code: None }
    }

    /// The caller may not do this.
    pub fn forbidden(message: &str) -> (r: AppError)
        ensures
            r@ == plain(ErrorStatus::Forbidden, message@),
    {
        AppError { status: ErrorStatus::Forbidden, error: message.to_string(), code: None }
    }

    /// A device or service did not answer in time.
    pub fn gateway_timeout(message: &str) -> (r: AppError)
        ensures
            r@ == plain(ErrorStatus::GatewayTimeout, message@),
    {
        AppError { status: ErrorStatus::GatewayTimeout, error: message.to_string(), code: None }
    }

    /// Any other failure.
    pub fn internal(message: &str) -> (r: AppError)
        ensures
            r@ == plain(ErrorStatus::Internal, message@),
    {
        AppError { status: ErrorStatus::Internal, error: message.to_string(), code: None }
    }

    /// The same error with a code.
    pub fn with_code(self, code: &str) -> (r: AppError)
        ensures
            r@ == coded(self@.status, self@.error, code@),
    {
        AppError { status: self.status, error: self.error, code: Some(code.to_string()) }
    }

    /// The status code and the body that answer the request.
    pub fn into_response(self) -> (r: (u16, ErrorResponse))
        ensures
            r.0 == self@.status.code_number(),
            r.1.error@ == self@.error,
            text::opt(r.1.code) == self@.code,
    {
        let status = self.status.as_u16();
        (status, ErrorResponse { error: self.error, code: self.code })
    }
}

} // verus!
