//! Account configuration, menu decisions, and the Reddit login and
//! token-refresh logic of the r/place downloader, with their contracts.

pub mod bindings;
pub mod config;
pub mod flows;
pub mod input;
pub mod laws;
pub mod menus;
pub mod models;
pub mod reddit;
pub mod response;
pub mod text;
