//! The error taxonomy of the service and its mapping to HTTP status codes.

use vstd::prelude::*;

verus! {

/// Every failure the core logic can report.
#[derive(Debug, Clone)]
pub enum AppError {
    /// Non-2xx or malformed upstream response.
    ExternalApiError(String),
    /// A missing or unusable credential.
    AuthenticationError(String),
    /// Missing or empty required input.
    ValidationError(String),
    /// A cache operation failed.
    CacheError(String),
    /// An upstream call took too long.
    TimeoutError(String),
    /// Too many requests.
    RateLimitError,
    /// A broken internal invariant.
    InternalError(String),
}

impl AppError {
    /// The HTTP status code each variant maps to.
    pub open spec fn spec_status_code(self) -> u16 {
        match self {
            AppError::ExternalApiError(_) => 502,
            AppError::AuthenticationError(_) => 401,
            AppError::ValidationError(_) => 400,
            AppError::CacheError(_) => 500,
            AppError::TimeoutError(_) => 408,
            AppError::RateLimitError => 429,
            AppError::InternalError(_) => 500,
        }
    }

    /// The HTTP status code this error is reported with.
    pub fn status_code(&self) -> (code: u16)
        ensures
            code == self.spec_status_code(),
    {
        match self {
            AppError::ExternalApiError(_) => 502,
            AppError::AuthenticationError(_) => 401,
            AppError::ValidationError(_) => 400,
            AppError::CacheError(_) => 500,
            AppError::TimeoutError(_) => 408,
            AppError::RateLimitError => 429,
            AppError::InternalError(_) => 500,
        }
    }

    /// The headline of each variant's rendered message.
    pub open spec fn spec_message(self) -> Seq<char> {
        match self {
            AppError::ExternalApiError(m) => "External API error: "@ + m@,
            AppError::AuthenticationError(m) => "Authentication failed: "@ + m@,
            AppError::ValidationError(m) => "Invalid request: "@ + m@,
            AppError::CacheError(m) => "Cache error: "@ + m@,
            AppError::TimeoutError(m) => "Timeout error: "@ + m@,
            AppError::RateLimitError => "Rate limit exceeded"@,
            AppError::InternalError(m) => "Internal server error: "@ + m@,
        }
    }

    /// Renders the error as one line of text.
    pub fn message(&self) -> (r: String)
        ensures
            r@ == self.spec_message(),
    {
        match self {
            AppError::ExternalApiError(m) => String::from_str("External API error: ").concat(
                m.as_str(),
            ),
            AppError::AuthenticationError(m) => String::from_str("Authentication failed: ").concat(
                m.as_str(),
            ),
            AppError::ValidationError(m) => String::from_str("Invalid request: ").concat(
                m.as_str(),
            ),
            AppError::CacheError(m) => String::from_str("Cache error: ").concat(m.as_str()),
            AppError::TimeoutError(m) => String::from_str("Timeout error: ").concat(m.as_str()),
            AppError::RateLimitError => String::from_str("Rate limit exceeded"),
            AppError::InternalError(m) => String::from_str("Internal server error: ").concat(
                m.as_str(),
            ),
        }
    }
}

/// The error a gateway reports for a well-known failed HTTP status, or
/// `None` for a status outside the mapped set.
pub fn error_for_status(status: u16) -> (r: Option<AppError>)
    ensures
        status == 400 ==> (r matches Some(e) && e matches AppError::ValidationError(m) && m@
            == "Bad request"@),
        status == 401 ==> (r matches Some(e) && e matches AppError::AuthenticationError(m) && m@
            == "Unauthorized"@),
        status == 403 ==> (r matches Some(e) && e matches AppError::AuthenticationError(m) && m@
            == "Forbidden"@),
        status == 404 ==> (r matches Some(e) && e matches AppError::ValidationError(m) && m@
            == "Not found"@),
        status == 429 ==> (r matches Some(e) && e is RateLimitError),
        status == 500 ==> (r matches Some(e) && e matches AppError::InternalError(m) && m@
            == "Internal server error"@),
        status != 400 && status != 401 && status != 403 && status != 404 && status != 429 && status
            != 500 ==> r is None,
{
    match status {
        400 => Some(AppError::ValidationError(String::from_str("Bad request"))),
        401 => Some(AppError::AuthenticationError(String::from_str("Unauthorized"))),
        403 => Some(AppError::AuthenticationError(String::from_str("Forbidden"))),
        404 => Some(AppError::ValidationError(String::from_str("Not found"))),
        429 => Some(AppError::RateLimitError),
        500 => Some(AppError::InternalError(String::from_str("Internal server error"))),
        _ => None,
    }
}

} // verus!
