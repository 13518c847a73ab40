//! The daemon's decisions: who may call, what is audited, how stored
//! conversations become history entries and model context.
pub mod audit;
pub mod authorization;
pub mod chat;
pub mod history;
pub mod models;
