use vstd::prelude::*;

use crate::providers::models::{Provider, ProviderMetadata};

verus! {

/// What a provider bridge says of itself without an instance.
pub trait StaticProviderInfo {
    /// The associated [Provider] for this bridge implementation.
    fn provider() -> Provider;

    /// An object containing all static metadata for this provider.
    fn metadata() -> ProviderMetadata;
}

} // verus!
