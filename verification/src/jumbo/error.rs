use vstd::prelude::*;

verus! {

/// An error of the Jumbo API client. Errors of the HTTP client and of other layers are carried as
/// their messages.
#[derive(Clone, Debug, PartialEq, Eq)]
pub enum ApiError {
    LoginFailed(String),
    NotFound(String),
    Other(String),
    Reqwest(String),
}

} // verus!
