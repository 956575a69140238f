//! The error taxonomy: server errors with status code and detail, and the
//! closed set of standard HTTP error conditions.

use vstd::prelude::*;
use vstd::string::*;
use crate::traits::Error;

verus! {

/// An error produced anywhere in the pipeline; it is serialized into an
/// error status line.
#[derive(Debug)]
pub struct ServerError {
    status_code: usize,
    detail: String,
}

impl ServerError {
    /// Build an error from a status code and a detail line.
    pub fn new(status_code: usize, detail: String) -> (r: Self)
        ensures
            r.status_view() == status_code,
            r.detail_view() == detail@,
    {
        ServerError { status_code, detail }
    }
}

impl Error for ServerError {
    closed spec fn status_view(&self) -> usize {
        self.status_code
    }

    closed spec fn detail_view(&self) -> Seq<char> {
        self.detail@
    }

    fn get_status_code(&self) -> (c: usize) {
        self.status_code
    }

    fn get_detail(&self) -> (d: String) {
        self.detail.clone()
    }
}

/// The closed set of standard HTTP error conditions, each with its fixed
/// status code and reason phrase.
#[derive(Clone, Copy, Debug, PartialEq, Eq, Structural)]
pub enum StdServerError {
    BadRequest,
    Unauthorized,
    PaymentRequired,
    Forbidden,
    NotFound,
    MethodNotAllowed,
    UnprocessableContent,
    InternalServerError,
    NotImplemented,
    HttpVersionNotSupported,
}

impl StdServerError {
    /// The status code of this condition.
    pub open spec fn spec_code(self) -> usize {
        match self {
            StdServerError::BadRequest => 400,
            StdServerError::Unauthorized => 401,
            StdServerError::PaymentRequired => 402,
            StdServerError::Forbidden => 403,
            StdServerError::NotFound => 404,
            StdServerError::MethodNotAllowed => 405,
            StdServerError::UnprocessableContent => 422,
            StdServerError::InternalServerError => 500,
            StdServerError::NotImplemented => 501,
            StdServerError::HttpVersionNotSupported => 505,
        }
    }

    /// The reason phrase of this condition.
    pub open spec fn spec_detail(self) -> Seq<char> {
        match self {
            StdServerError::BadRequest => "Bad Request"@,
            StdServerError::Unauthorized => "Unauthorized"@,
            StdServerError::PaymentRequired => "Payment Required"@,
            StdServerError::Forbidden => "Forbidden"@,
            StdServerError::NotFound => "Not Found"@,
            StdServerError::MethodNotAllowed => "Method Not Allowed"@,
            StdServerError::UnprocessableContent => "Unprocessable Content"@,
            StdServerError::InternalServerError => "Internal Server Error"@,
            StdServerError::NotImplemented => "Not Implemented"@,
            StdServerError::HttpVersionNotSupported => "HTTP Version Not Supported"@,
        }
    }

    /// The `ServerError` carrying this condition's code and reason phrase.
    pub fn to_error(&self) -> (r: ServerError)
        ensures
            r.status_view() == self.spec_code(),
            r.detail_view() == self.spec_detail(),
    {
        match self {
            StdServerError::BadRequest => ServerError::new(400, String::from_str("Bad Request")),
            StdServerError::Unauthorized => ServerError::new(
                401,
                String::from_str("Unauthorized"),
            ),
            StdServerError::PaymentRequired => ServerError::new(
                402,
                String::from_str("Payment Required"),
            ),
            StdServerError::Forbidden => ServerError::new(403, String::from_str("Forbidden")),
            StdServerError::NotFound => ServerError::new(404, String::from_str("Not Found")),
            StdServerError::MethodNotAllowed => ServerError::new(
                405,
                String::from_str("Method Not Allowed"),
            ),
            StdServerError::UnprocessableContent => ServerError::new(
                422,
                String::from_str("Unprocessable Content"),
            ),
            StdServerError::InternalServerError => ServerError::new(
                500,
                String::from_str("Internal Server Error"),
            ),
            StdServerError::NotImplemented => ServerError::new(
                501,
                String::from_str("Not Implemented"),
            ),
            StdServerError::HttpVersionNotSupported => ServerError::new(
                505,
                String::from_str("HTTP Version Not Supported"),
            ),
        }
    }
}

} // verus!
