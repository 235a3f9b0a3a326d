use vstd::prelude::*;

use crate::jumbo::error::ApiError as JumboApiError;
use crate::picnic::error::ApiError as PicnicApiError;
use crate::providers::models::Provider;

verus! {

/// An error of a provider. Errors of the HTTP client and of other layers are carried as their messages.
#[derive(Debug, PartialEq, Eq)]
pub enum ProviderError {
    InitialisationFailed(String),
    NothingFound,
    ProviderUninitialised(Provider),
    SubProviderError(Provider, SubProviderError),
    OperationUnsupported(String),
    Other(String),
    Reqwest(String),
}

/// An error of one provider's API client.
#[derive(Debug, PartialEq, Eq)]
pub enum SubProviderError {
    LoginFailed(String),
    NotFound(String),
    PicnicMiscError(PicnicApiError),
    JumboMiscError(JumboApiError),
}

/// A Picnic error as a provider error: login failures and missing resources keep their message, all
/// other errors are carried whole.
pub open spec fn picnic_sub_error(value: PicnicApiError) -> SubProviderError {
    match value {
        PicnicApiError::LoginFailed(val) => SubProviderError::LoginFailed(val),
        PicnicApiError::NotFound(url_suffix) => SubProviderError::NotFound(url_suffix),
        _ => SubProviderError::PicnicMiscError(value),
    }
}

/// A Jumbo error as a provider error: login failures and missing resources keep their message, all
/// other errors are carried whole.
pub open spec fn jumbo_sub_error(value: JumboApiError) -> SubProviderError {
    match value {
        JumboApiError::LoginFailed(val) => SubProviderError::LoginFailed(val),
        JumboApiError::NotFound(url_suffix) => SubProviderError::NotFound(url_suffix),
        _ => SubProviderError::JumboMiscError(value),
    }
}

impl From<PicnicApiError> for SubProviderError {
    fn from(value: PicnicApiError) -> (res: SubProviderError) {
        match value {
            PicnicApiError::LoginFailed(val) => SubProviderError::LoginFailed(val),
            PicnicApiError::NotFound(url_suffix) => SubProviderError::NotFound(url_suffix),
            _ => SubProviderError::PicnicMiscError(value),
        }
    }
}

impl vstd::std_specs::convert::FromSpecImpl<PicnicApiError> for SubProviderError {
    open spec fn obeys_from_spec() -> bool {
        true
    }

    open spec fn from_spec(v: PicnicApiError) -> SubProviderError {
        picnic_sub_error(v)
    }
}

impl From<JumboApiError> for SubProviderError {
    fn from(value: JumboApiError) -> (res: SubProviderError) {
        match value {
            JumboApiError::LoginFailed(val) => SubProviderError::LoginFailed(val),
            JumboApiError::NotFound(url_suffix) => SubProviderError::NotFound(url_suffix),
            _ => SubProviderError::JumboMiscError(value),
        }
    }
}

impl vstd::std_specs::convert::FromSpecImpl<JumboApiError> for SubProviderError {
    open spec fn obeys_from_spec() -> bool {
        true
    }

    open spec fn from_spec(v: JumboApiError) -> SubProviderError {
        jumbo_sub_error(v)
    }
}

impl From<PicnicApiError> for ProviderError {
    fn from(value: PicnicApiError) -> (res: ProviderError) {
        ProviderError::SubProviderError(Provider::Picnic, SubProviderError::from(value))
    }
}

impl vstd::std_specs::convert::FromSpecImpl<PicnicApiError> for ProviderError {
    open spec fn obeys_from_spec() -> bool {
        true
    }

    open spec fn from_spec(v: PicnicApiError) -> ProviderError {
        ProviderError::SubProviderError(Provider::Picnic, picnic_sub_error(v))
    }
}

impl From<JumboApiError> for ProviderError {
    fn from(value: JumboApiError) -> (res: ProviderError) {
        ProviderError::SubProviderError(Provider::Jumbo, SubProviderError::from(value))
    }
}

impl vstd::std_specs::convert::FromSpecImpl<JumboApiError> for ProviderError {
    open spec fn obeys_from_spec() -> bool {
        true
    }

    open spec fn from_spec(v: JumboApiError) -> ProviderError {
        ProviderError::SubProviderError(Provider::Jumbo, jumbo_sub_error(v))
    }
}

} // verus!
