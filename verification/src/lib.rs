pub mod text;
pub mod numbers;
pub mod dates;
pub mod providers;
pub mod patterns;
pub mod jumbo;
pub mod picnic;
pub mod sale_resolver;
pub mod caching;
pub mod scheduler;
