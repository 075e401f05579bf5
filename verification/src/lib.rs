//! Core logic of a line-oriented multi-user chat server: frame validation,
//! the per-connection protocol state machine, the connection and user
//! registries, and message routing.

pub mod auth;
pub mod commands;
pub mod config;
pub mod conn_handler;
pub mod laws;
pub mod router;
pub mod state;
pub mod textutils;
pub mod validators;
