use vstd::prelude::*;

verus! {

/// The HTTP status used whenever an error carries a code that is not a
/// valid status.
pub const INTERNAL_SERVER_ERROR: u16 = 500;

/// An error as the service reports it: an HTTP status code and a message.
#[derive(Debug)]
pub struct CustomError {
    pub error_status_code: u16,
    pub error_message: String,
}

/// What the service answers for an error: the status it is sent with and the
/// message that goes into the body.
#[derive(Debug, PartialEq, Eq)]
pub struct ErrorReply {
    pub status: u16,
    pub message: String,
}

/// A failed database operation, reduced to the facts the service reads.
#[derive(Debug)]
pub enum DbFailure {
    /// The database refused the statement (a constraint, for instance); the
    /// database's own message is kept.
    DatabaseError { message: String },
    /// The statement matched no row.
    NotFound,
    /// Any other failure, with its printed description.
    Other { description: String },
}

/// Whether `code` names an HTTP status: a three-digit number.
pub open spec fn is_valid_status(code: int) -> bool {
    100 <= code < 1000
}

/// The status that an error with code `code` is answered with.
pub open spec fn reply_status(code: u16) -> u16 {
    if is_valid_status(code as int) { code } else { INTERNAL_SERVER_ERROR }
}

/// The message shown to clients: server-side failures are not described.
pub open spec fn reply_message(status: u16, message: Seq<char>) -> Seq<char> {
    if status < 500 { message } else { "Internal server error"@ }
}

/// Converts a status number through `actix_web::http::StatusCode::from_u16`
/// and back through `StatusCode::as_u16`. The contract claims that the
/// conversion succeeds exactly for codes from 100 to 999 and then keeps the
/// number unchanged.
#[verifier::external_body]
fn status_code_from_u16(code: u16) -> (r: Option<u16>)
    ensures
        r == (if is_valid_status(code as int) { Some(code) } else { None::<u16> }),
{
    match actix_web::http::StatusCode::from_u16(code) {
        Ok(status) => Some(status.as_u16()),
        Err(_) => None,
    }
}

impl CustomError {
    pub fn new(error_status_code: u16, error_message: String) -> (r: CustomError)
        ensures
            r.error_status_code == error_status_code,
            r.error_message == error_message,
    {
        CustomError { error_status_code, error_message }
    }

    /// The text the error prints as.
    pub fn message(&self) -> (r: &str)
        ensures
            r@ == self.error_message@,
    {
        self.error_message.as_str()
    }

    /// The status and body message that a client receives for this error.
    pub fn error_response(&self) -> (r: ErrorReply)
        ensures
            r.status == reply_status(self.error_status_code),
            is_valid_status(r.status as int),
            r.message@ == reply_message(r.status, self.error_message@),
    {
        let status = match status_code_from_u16(self.error_status_code) {
            Some(s) => s,
            None => INTERNAL_SERVER_ERROR,
        };
        let message = if status < 500 {
            self.error_message.clone()
        } else {
            String::from_str("Internal server error")
        };
        ErrorReply { status, message }
    }
}

/// The message given when a lookup finds no user.
pub open spec fn not_found_message() -> Seq<char> {
    "Хэрэглэгч олдсонгүй"@
}

/// The prefix of the message given for an unclassified database failure.
pub open spec fn unknown_failure_prefix() -> Seq<char> {
    "Unknown Diesel error: "@
}

/// How a database failure is reported: a refused statement is a conflict
/// (409) that carries the database's message, a missing row is 404, and
/// anything else is a server error (500) that names the failure.
pub open spec fn failure_error(failure: DbFailure) -> (u16, Seq<char>) {
    match failure {
        DbFailure::DatabaseError { message } => (409, message@),
        DbFailure::NotFound => (404, not_found_message()),
        DbFailure::Other { description } => (500, unknown_failure_prefix() + description@),
    }
}

impl CustomError {
    /// Classifies a failed database operation.
    pub fn from(failure: DbFailure) -> (r: CustomError)
        ensures
            (r.error_status_code, r.error_message@) == failure_error(failure),
    {
        match failure {
            DbFailure::DatabaseError { message } => CustomError::new(409, message),
            DbFailure::NotFound => CustomError::new(404, String::from_str("Хэрэглэгч олдсонгүй")),
            DbFailure::Other { description } => {
                let text = String::from_str("Unknown Diesel error: ");
                CustomError::new(500, text.concat(description.as_str()))
            },
        }
    }
}

} // verus!
