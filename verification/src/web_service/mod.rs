//! The web front end: its configuration and conversation history.

pub mod config;
pub mod messages;
pub mod routes;
