//! Error taxonomy shared by every endpoint: each variant carries a
//! human-readable message and maps to one HTTP status code.

use vstd::prelude::*;

verus! {

/// Body shape of every error reply: `{ "message": string }`.
pub struct ErrorResponse {
    pub message: String,
}

impl View for ErrorResponse {
    type V = Seq<char>;

    open spec fn view(&self) -> Seq<char> {
        self.message@
    }
}

/// The error taxonomy. `Internal` is a backing-service failure,
/// `NotFound` a missing resource (or a write that affected zero rows),
/// `BadRequest` malformed input, `Unauthorized` a missing or invalid
/// credential, `Forbidden` an authenticated caller without permission.
#[derive(Debug, Clone, PartialEq, Eq)]
pub enum JsonError {
    Internal(String),
    NotFound(String),
    BadRequest(String),
    Unauthorized(String),
    Forbidden(String),
}

/// Mathematical image of a `JsonError`: the same taxonomy over
/// character sequences.
#[verifier::ext_equal]
pub enum JsonErrorModel {
    Internal(Seq<char>),
    NotFound(Seq<char>),
    BadRequest(Seq<char>),
    Unauthorized(Seq<char>),
    Forbidden(Seq<char>),
}

impl View for JsonError {
    type V = JsonErrorModel;

    open spec fn view(&self) -> JsonErrorModel {
        match self {
            JsonError::Internal(m) => JsonErrorModel::Internal(m@),
            JsonError::NotFound(m) => JsonErrorModel::NotFound(m@),
            JsonError::BadRequest(m) => JsonErrorModel::BadRequest(m@),
            JsonError::Unauthorized(m) => JsonErrorModel::Unauthorized(m@),
            JsonError::Forbidden(m) => JsonErrorModel::Forbidden(m@),
        }
    }
}

impl JsonError {
    /// The HTTP status code of each variant.
    pub fn get_http_status(&self) -> (status: u16)
        ensures
            status == self.spec_http_status(),
    {
        match self {
            JsonError::Internal(_) => 500,
            JsonError::NotFound(_) => 404,
            JsonError::BadRequest(_) => 400,
            JsonError::Unauthorized(_) => 401,
            JsonError::Forbidden(_) => 403,
        }
    }

    pub open spec fn spec_http_status(&self) -> u16 {
        match self {
            JsonError::Internal(_) => 500,
            JsonError::NotFound(_) => 404,
            JsonError::BadRequest(_) => 400,
            JsonError::Unauthorized(_) => 401,
            JsonError::Forbidden(_) => 403,
        }
    }

    pub open spec fn spec_reason(&self) -> Seq<char> {
        match self {
            JsonError::Internal(_) => "Internal Server Error"@,
            JsonError::NotFound(_) => "Not Found"@,
            JsonError::BadRequest(_) => "Bad Request"@,
            JsonError::Unauthorized(_) => "Unauthorized"@,
            JsonError::Forbidden(_) => "Forbidden"@,
        }
    }

    /// The reason phrase of the variant's HTTP status.
    pub fn status_reason(&self) -> (r: String)
        ensures
            r@ == self.spec_reason(),
    {
        match self {
            JsonError::Internal(_) => String::from_str("Internal Server Error"),
            JsonError::NotFound(_) => String::from_str("Not Found"),
            JsonError::BadRequest(_) => String::from_str("Bad Request"),
            JsonError::Unauthorized(_) => String::from_str("Unauthorized"),
            JsonError::Forbidden(_) => String::from_str("Forbidden"),
        }
    }

    pub open spec fn spec_payload(&self) -> Seq<char> {
        match self {
            JsonError::Internal(m) => m@,
            JsonError::NotFound(m) => m@,
            JsonError::BadRequest(m) => m@,
            JsonError::Unauthorized(m) => m@,
            JsonError::Forbidden(m) => m@,
        }
    }

    /// The message carried by the variant.
    pub fn payload(&self) -> (r: &String)
        ensures
            r@ == self.spec_payload(),
    {
        match self {
            JsonError::Internal(m) => m,
            JsonError::NotFound(m) => m,
            JsonError::BadRequest(m) => m,
            JsonError::Unauthorized(m) => m,
            JsonError::Forbidden(m) => m,
        }
    }

    /// The message an error reply carries: the status reason phrase and
    /// the payload, as in `Error Unauthorized: Invalid credentials.`
    pub open spec fn spec_message_text(&self) -> Seq<char> {
        "Error "@ + self.spec_reason() + ": "@ + self.spec_payload() + "."@
    }

    /// Render the reply message for this error.
    pub fn message_text(&self) -> (r: String)
        ensures
            r@ == self.spec_message_text(),
    {
        let mut s = String::from_str("Error ");
        let reason = self.status_reason();
        s.append(reason.as_str());
        s.append(": ");
        s.append(self.payload().as_str());
        s.append(".");
        s
    }

    /// The body of the reply for this error.
    pub fn to_error_response(&self) -> (r: ErrorResponse)
        ensures
            r@ == self.spec_message_text(),
    {
        ErrorResponse { message: self.message_text() }
    }
}

} // verus!
