//! The gRPC model service: its configuration and the model registry.

pub mod config;
pub mod configuration;
pub mod server;
