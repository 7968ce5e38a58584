//! Errors of the inference engine.

use vstd::prelude::*;
use crate::inference_core::queue::RefusedJob;
use anyhow::Error as AnyError;

verus! {

#[verifier::external_type_specification]
#[verifier::external_body]
pub struct ExAnyhowError(AnyError);

/// Why an inference request could not be served.
pub enum Error {
    /// The model hub failed.
    HfError(AnyError),
    /// The model failed to load.
    ModelLoadError(AnyError),
    /// The job queue is closed on the workers' side; the job is handed back.
    TaskScheduleError(RefusedJob),
    /// Any other failure, with its reason.
    Other { reason: &'static str },
}

} // verus!
