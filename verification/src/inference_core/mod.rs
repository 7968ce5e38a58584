//! The inference engine: the job queue and token generation.

pub mod generate;
pub mod errors;
pub mod modelpool;
pub mod queue;
pub mod weights;
pub mod hf;
