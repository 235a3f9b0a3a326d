pub mod models;
pub mod error;
pub mod images;
pub mod config;
pub mod credentials;
pub mod pages;
pub mod login;
