//! The client's decisions: arguments, what each command prints and returns,
//! the setup wizard, and the full-screen conversation view.
pub mod chat;
pub mod cli;
pub mod commands;
pub mod setup;
pub mod tui;
pub mod wizard;
