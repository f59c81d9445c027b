//! The closed set of failures that an operation can report.

use vstd::prelude::*;

verus! {

/// `actix_web::Error`, whatever the web framework reports. Nothing is read
/// from it.
#[verifier::external_type_specification]
#[verifier::external_body]
pub struct ExActixError(actix_web::Error);

/// The one failure an operation reports when it does not succeed.
///
/// No variant carries account or session data. An unknown email and a wrong
/// password are both `InvalidCredentials`, so a caller cannot probe which
/// accounts exist.
#[derive(Debug, Clone, Copy, PartialEq, Eq, Structural)]
pub enum ServiceError {
    /// The store, the hashing primitive or the worker pool failed.
    InternalError,
    /// Unknown email or wrong password.
    InvalidCredentials,
    /// The email policy refused the address, or the address is already taken.
    InvalidEmail,
    /// The password policy refused the password.
    WeakPassword,
    /// The session was never issued, or has ended.
    InvalidSession,
}

impl ServiceError {
    /// The HTTP status that stands for this failure.
    pub open spec fn spec_status_code(self) -> u16 {
        match self {
            ServiceError::InternalError => 500,
            ServiceError::InvalidCredentials => 401,
            ServiceError::InvalidEmail => 400,
            ServiceError::WeakPassword => 400,
            ServiceError::InvalidSession => 401,
        }
    }

    /// The text shown to the caller for this failure.
    ///
    /// An internal failure reads like a credential failure: the text never
    /// tells a caller that the server itself is in trouble.
    pub open spec fn spec_message(self) -> Seq<char> {
        match self {
            ServiceError::InternalError => "Invalid Credentials"@,
            ServiceError::InvalidCredentials => "Invalid Credentials"@,
            ServiceError::InvalidEmail => "Invalid Email"@,
            ServiceError::WeakPassword => "Weak Password"@,
            ServiceError::InvalidSession => "Invalid Session"@,
        }
    }

    /// Whether the failure is the caller's doing (a 4xx status) rather than
    /// the server's.
    pub open spec fn is_client_fault(self) -> bool {
        self != ServiceError::InternalError
    }

    /// Maps the failure to its HTTP status: server error, unauthorized or bad
    /// request.
    pub fn status_code(&self) -> (code: u16)
        ensures
            code == self.spec_status_code(),
            self.is_client_fault() <==> 400 <= code < 500,
    {
        match self {
            ServiceError::InternalError => 500,
            ServiceError::InvalidCredentials => 401,
            ServiceError::InvalidEmail => 400,
            ServiceError::WeakPassword => 400,
            ServiceError::InvalidSession => 401,
        }
    }

    /// The text shown to the caller for this failure.
    pub fn message(&self) -> (text: &'static str)
        ensures
            text@ == self.spec_message(),
    {
        match self {
            ServiceError::InternalError => "Invalid Credentials",
            ServiceError::InvalidCredentials => "Invalid Credentials",
            ServiceError::InvalidEmail => "Invalid Email",
            ServiceError::WeakPassword => "Weak Password",
            ServiceError::InvalidSession => "Invalid Session",
        }
    }
}

/// Whatever the web framework reports on the way to the executor or back,
/// such as a worker pool that cannot be reached, is an internal error.
impl From<actix_web::Error> for ServiceError {
    fn from(_e: actix_web::Error) -> (failure: ServiceError) {
        ServiceError::InternalError
    }
}

impl vstd::std_specs::convert::FromSpecImpl<actix_web::Error> for ServiceError {
    open spec fn obeys_from_spec() -> bool {
        true
    }

    open spec fn from_spec(e: actix_web::Error) -> ServiceError {
        ServiceError::InternalError
    }
}

} // verus!
