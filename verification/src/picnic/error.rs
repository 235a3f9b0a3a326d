use vstd::prelude::*;

verus! {

/// An error of the Picnic API client. Errors of the HTTP client and of other layers are carried as
/// their messages.
#[derive(Clone, Debug, PartialEq, Eq)]
pub enum ApiError {
    LoginFailed(String),
    NotFound(String),
    EmptySearch,
    AuthError,
    NoSecondFactorCode,
    Other(String),
    Reqwest(String),
}

} // verus!
