pub mod config;
pub mod error;
pub mod ids;
pub mod models;
