//! The application's errors, their text, and the HTTP answer each one gets.
use vstd::prelude::*;
use vstd::string::*;

verus! {

/// An error of the service. A database or response error carries the text of the
/// underlying error.
#[derive(Debug)]
pub enum AppError {
    Database(String),
    NotFound(String),
    Validation(String),
    Internal(String),
    Unauthorized(String),
    Request(String),
    Response(String),
}

/// The body of an error answer.
#[derive(Debug)]
pub struct ErrorResponse {
    pub error: String,
}

impl AppError {
    /// The error's text, as its `Display` shows it.
    pub open spec fn spec_text(&self) -> Seq<char> {
        match self {
            AppError::Database(m) => "Database error: "@ + m@,
            AppError::NotFound(m) => "Not found: "@ + m@,
            AppError::Validation(m) => "Validation error: "@ + m@,
            AppError::Internal(m) => "Internal server error: "@ + m@,
            AppError::Unauthorized(m) => "Unauthorized: "@ + m@,
            AppError::Request(m) => "Request error: "@ + m@,
            AppError::Response(m) => "Response error: "@ + m@,
        }
    }

    /// The HTTP status of the error's answer.
    pub open spec fn spec_status(&self) -> u16 {
        match self {
            AppError::Database(_) => 500,
            AppError::NotFound(_) => 404,
            AppError::Validation(_) => 400,
            AppError::Internal(_) => 500,
            AppError::Unauthorized(_) => 401,
            AppError::Request(_) => 400,
            AppError::Response(_) => 500,
        }
    }

    /// The message that the error's answer shows the client.
    pub open spec fn spec_public_message(&self) -> Seq<char> {
        match self {
            AppError::Database(_) => "Database error occurred"@,
            AppError::NotFound(m) => m@,
            AppError::Validation(m) => m@,
            AppError::Internal(m) => m@,
            AppError::Unauthorized(m) => m@,
            AppError::Request(m) => m@,
            AppError::Response(_) => "Response error"@,
        }
    }

    /// The error's text.
    pub fn to_string(&self) -> (s: String)
        ensures
            s@ == self.spec_text(),
    {
        match self {
            AppError::Database(m) => String::from_str("Database error: ").concat(m.as_str()),
            AppError::NotFound(m) => String::from_str("Not found: ").concat(m.as_str()),
            AppError::Validation(m) => String::from_str("Validation error: ").concat(m.as_str()),
            AppError::Internal(m) => String::from_str("Internal server error: ").concat(m.as_str()),
            AppError::Unauthorized(m) => String::from_str("Unauthorized: ").concat(m.as_str()),
            AppError::Request(m) => String::from_str("Request error: ").concat(m.as_str()),
            AppError::Response(m) => String::from_str("Response error: ").concat(m.as_str()),
        }
    }

    /// The HTTP status and body of the answer to the error. The detail of a database or a
    /// response error is never shown to the client.
    pub fn to_response(&self) -> (r: (u16, ErrorResponse))
        ensures
            r.0 == self.spec_status(),
            r.1.error@ == self.spec_public_message(),
            400 <= r.0 < 600,
            (self is Database || self is Internal || self is Response) <==> r.0 >= 500,
    {
        match self {
            AppError::Database(_) => (500, ErrorResponse { error: String::from_str("Database error occurred") }),
            AppError::NotFound(m) => (404, ErrorResponse { error: m.clone() }),
            AppError::Validation(m) => (400, ErrorResponse { error: m.clone() }),
            AppError::Unauthorized(m) => (401, ErrorResponse { error: m.clone() }),
            AppError::Request(m) => (400, ErrorResponse { error: m.clone() }),
            AppError::Internal(m) => (500, ErrorResponse { error: m.clone() }),
            AppError::Response(_) => (500, ErrorResponse { error: String::from_str("Response error") }),
        }
    }
}

/// A validation error with the given message.
pub fn validation(msg: &str) -> (e: AppError)
    ensures
        e matches AppError::Validation(m) && m@ == msg@,
{
    AppError::Validation(String::from_str(msg))
}

/// A not-found error with the given message.
pub fn not_found(msg: &str) -> (e: AppError)
    ensures
        e matches AppError::NotFound(m) && m@ == msg@,
{
    AppError::NotFound(String::from_str(msg))
}

/// An internal error with the given message.
pub fn internal(msg: &str) -> (e: AppError)
    ensures
        e matches AppError::Internal(m) && m@ == msg@,
{
    AppError::Internal(String::from_str(msg))
}

/// The row that a lookup found, or a not-found error with the given message.
pub fn found_or<T>(row: Option<T>, msg: &str) -> (r: Result<T, AppError>)
    ensures
        match row {
            Some(x) => r == Ok::<T, AppError>(x),
            None => r matches Err(AppError::NotFound(m)) && m@ == msg@,
        },
{
    match row {
        Some(x) => Ok(x),
        None => Err(not_found(msg)),
    }
}

/// Success when a delete removed a row; a not-found error with the given message when it
/// removed none.
pub fn deleted_or(rows: u64, msg: &str) -> (r: Result<(), AppError>)
    ensures
        rows > 0 ==> r is Ok,
        rows == 0 ==> (r matches Err(AppError::NotFound(m)) && m@ == msg@),
{
    if rows == 0 {
        Err(not_found(msg))
    } else {
        Ok(())
    }
}

/// Law: the answer to an error never depends on the detail that a database or a
/// response error carries.
pub proof fn law_error_detail_hidden(a: AppError, b: AppError)
    requires
        (a is Database && b is Database) || (a is Response && b is Response),
    ensures
        a.spec_status() == b.spec_status(),
        a.spec_public_message() == b.spec_public_message(),
{
}

} // verus!
