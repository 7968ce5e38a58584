//! Verified core of a model-serving stack: service configuration, the model
//! registry, conversation history, the inference job queue and the
//! token-generation control loop.

pub mod text;
pub mod grpc_service;
pub mod inference_core;
pub mod web_service;
