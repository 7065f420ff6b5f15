pub mod models;
pub mod client;
pub mod auth;
