//! Verified core of the command-line assistant.
pub mod client;
pub mod config;
pub mod constants;
pub mod daemon;
pub mod dbus;
pub mod errors;
pub mod files;
pub mod json;
pub mod paths;
pub mod query;
pub mod rendering;
pub mod session;
pub mod system;
pub mod terminal;
pub mod text;
