pub mod api;
pub mod app;
pub mod config;
pub mod text;
pub mod ui;
