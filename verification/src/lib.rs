//! Verified decision logic of the Jarvis desktop shell: model selection,
//! inference-source configuration, cloud-key bookkeeping, provider catalogs,
//! the backend boot sequence and the diagnostics shown to the user.

pub mod text;
pub mod models;
pub mod config;
pub mod keys;
pub mod json;
pub mod catalog;
pub mod diagnostics;
pub mod paths;
pub mod engine_toml;
pub mod boot;
pub mod commands;
pub mod shell;
