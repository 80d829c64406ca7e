//! Error values that leave the service, and how storage failures map onto them.
use vstd::prelude::*;

verus! {

/// The kinds of error a client can be told about.
#[derive(Clone, Copy, Debug, PartialEq, Eq, Structural)]
pub enum ApiErrorCodes {
    InvalidField,
    InternalError,
    Forbidden,
}

/// An error with an optional field scope and message for the client.
#[derive(Debug)]
pub struct ApiError {
    pub code: ApiErrorCodes,
    pub scope: Option<String>,
    pub message: Option<String>,
}

/// Why a write to storage failed.
#[derive(Clone, Copy, Debug, PartialEq, Eq, Structural)]
pub enum StoreError {
    /// A row with the same unique key is already stored.
    UniqueViolation,
    /// Any other failure (exhausted identifiers, hashing, ...).
    Other,
}

/// The code a storage failure is reported under: a unique-key clash is the
/// client's fault, anything else is internal.
pub open spec fn code_of_store_error(e: StoreError) -> ApiErrorCodes {
    match e {
        StoreError::UniqueViolation => ApiErrorCodes::InvalidField,
        StoreError::Other => ApiErrorCodes::InternalError,
    }
}

/// The text an optional string holds.
pub open spec fn opt_view(o: Option<String>) -> Option<Seq<char>> {
    match o {
        Some(s) => Some(s@),
        None => None,
    }
}

/// The HTTP status an error code is answered with.
pub open spec fn status_of_code(c: ApiErrorCodes) -> u16 {
    match c {
        ApiErrorCodes::InvalidField => 400,
        ApiErrorCodes::InternalError => 500,
        ApiErrorCodes::Forbidden => 403,
    }
}

impl From<StoreError> for ApiError {
    fn from(error: StoreError) -> (r: ApiError) {
        ApiError { code: match error {
            StoreError::UniqueViolation => ApiErrorCodes::InvalidField,
            _ => ApiErrorCodes::InternalError,
        }, scope: None, message: None }
    }
}

impl vstd::std_specs::convert::FromSpecImpl<StoreError> for ApiError {
    open spec fn obeys_from_spec() -> bool {
        true
    }

    open spec fn from_spec(error: StoreError) -> ApiError {
        ApiError { code: code_of_store_error(error), scope: None, message: None }
    }
}

impl ApiError {
    /// An error of the given code with no scope and no message.
    pub fn bare(code: ApiErrorCodes) -> (r: ApiError)
        ensures
            r.code == code,
            r.scope is None,
            r.message is None,
    {
        ApiError { code, scope: None, message: None }
    }

    /// The HTTP status this error is answered with.
    pub fn status(&self) -> (r: u16)
        ensures
            r == status_of_code(self.code),
    {
        match self.code {
            ApiErrorCodes::InvalidField => 400,
            ApiErrorCodes::InternalError => 500,
            ApiErrorCodes::Forbidden => 403,
        }
    }

    /// Whether the answer carries this error as a body: only client-correctable
    /// errors do, authorisation and internal failures are sent bare.
    pub fn has_body(&self) -> (r: bool)
        ensures
            r == (self.code == ApiErrorCodes::InvalidField),
    {
        match self.code {
            ApiErrorCodes::InvalidField => true,
            _ => false,
        }
    }
}

} // verus!
