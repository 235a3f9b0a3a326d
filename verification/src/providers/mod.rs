pub mod models;
pub mod common_bridge;
pub mod picnic_bridge;
pub mod jumbo_bridge;
pub mod jumbo_products;
pub mod error;
pub mod jumbo_promotions;
pub mod picnic_products;
pub mod picnic_full_product;
pub mod pagination;
pub mod searches;
pub mod wgg_provider;
pub mod provider_info;
pub mod picnic_promotions;
