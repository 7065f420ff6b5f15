pub mod text;
pub mod gmail;
pub mod state;
pub mod config;
pub mod error;
pub mod app;
pub mod components;
pub mod ui;
