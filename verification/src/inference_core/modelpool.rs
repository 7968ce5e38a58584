//! The job queue in front of the model workers.
//!
//! Requests are queued on a channel; worker threads, each holding a loaded
//! model, take them off the queue and send the generated text back on the
//! request's own reply channel.

use vstd::prelude::*;
use crate::inference_core::errors::Error;
use crate::inference_core::queue::send_job;
pub use crate::inference_core::queue::{JobReceipt, RefusedJob};

verus! {

#[verifier::external_type_specification]
#[verifier::external_body]
#[verifier::reject_recursive_types(T)]
pub struct ExTokenSender<T>(tokio::sync::mpsc::Sender<T>);

#[verifier::external_type_specification]
#[verifier::external_body]
#[verifier::reject_recursive_types(T)]
pub struct ExReplySender<T>(tokio::sync::oneshot::Sender<T>);

#[verifier::external_type_specification]
#[verifier::external_body]
#[verifier::reject_recursive_types(T)]
pub struct ExJobSender<T>(crossbeam_channel::Sender<T>);

/// How many tokens a worker samples for a streamed reply.
pub const STREAMING_MAX_NEW_TOKENS: usize = 128;

/// How many tokens a worker samples for a reply sent in one piece.
pub const BLOCKING_MAX_NEW_TOKENS: usize = 32;

/// An inference job: the prompt and where the reply goes.
#[allow(inconsistent_fields)]
pub enum SendBackMessage {
    /// The reply is streamed word by word as it is generated.
    Streaming { prompt: String, sender: tokio::sync::mpsc::Sender<String> },
    /// The reply is sent once, when generation is over.
    Blocking { prompt: String, sender: tokio::sync::oneshot::Sender<String> },
}

impl SendBackMessage {
    /// The prompt of the job.
    pub fn prompt(&self) -> (p: &String)
        ensures
            p == (match self {
                SendBackMessage::Streaming { prompt, .. } => prompt,
                SendBackMessage::Blocking { prompt, .. } => prompt,
            }),
    {
        match self {
            SendBackMessage::Streaming { prompt, .. } => prompt,
            SendBackMessage::Blocking { prompt, .. } => prompt,
        }
    }

    /// How many tokens a worker samples for the job: more for a streamed
    /// reply than for one sent in one piece.
    pub fn max_new_tokens(&self) -> (n: usize)
        ensures
            n == (if self is Streaming {
                STREAMING_MAX_NEW_TOKENS
            } else {
                BLOCKING_MAX_NEW_TOKENS
            }),
    {
        match self {
            SendBackMessage::Streaming { .. } => STREAMING_MAX_NEW_TOKENS,
            SendBackMessage::Blocking { .. } => BLOCKING_MAX_NEW_TOKENS,
        }
    }

    /// Whether the reply is streamed word by word.
    pub fn is_streaming(&self) -> (b: bool)
        ensures
            b == self is Streaming,
    {
        match self {
            SendBackMessage::Streaming { .. } => true,
            SendBackMessage::Blocking { .. } => false,
        }
    }
}

/// The queue side of the model pool. The worker threads that serve the
/// queue are started and joined by the program around the library.
pub struct ModelPool {
    /// Where jobs are queued; `None` once the pool is shut down.
    pub tx: Option<crossbeam_channel::Sender<SendBackMessage>>,
}

/// What scheduling a job gives back, for each outcome of the queue.
pub open spec fn schedule_result(sent: Result<JobReceipt, RefusedJob>, r: Result<JobReceipt, Error>) -> bool {
    match sent {
        Ok(rc) => r == Ok::<JobReceipt, Error>(rc),
        Err(rj) => r == Err::<JobReceipt, Error>(Error::TaskScheduleError(rj)),
    }
}

impl ModelPool {
    /// A pool queueing on `tx`.
    pub fn new(tx: crossbeam_channel::Sender<SendBackMessage>) -> (p: Self)
        ensures
            p.tx == Some(tx),
    {
        ModelPool { tx: Some(tx) }
    }

    /// The result of scheduling a job, given what the queue answered.
    pub fn schedule_outcome(sent: Result<JobReceipt, RefusedJob>) -> (r: Result<JobReceipt, Error>)
        ensures
            schedule_result(sent, r),
    {
        match sent {
            Ok(rc) => Ok(rc),
            Err(rj) => Err(Error::TaskScheduleError(rj)),
        }
    }

    /// Queues an inference job for the workers. A pool that is shut down
    /// refuses every job. Otherwise this very job is always handed to the
    /// channel: either the channel takes it, and the receipt says so, or the
    /// channel refuses it because the workers are gone, and the refusal
    /// hands the job back. Receipts and refusals come only from the
    /// channel's send, so neither outcome can come without that send.
    pub fn infer(&self, request: SendBackMessage) -> (r: Result<JobReceipt, Error>)
        ensures
            self.tx is None ==> r == Err::<JobReceipt, Error>(Error::Other { reason: "sender already dropped" }),
            self.tx is Some ==> match r {
                Ok(rc) => rc.job() == request,
                Err(e) => e matches Error::TaskScheduleError(rj) && rj.job() == request,
            },
    {
        match &self.tx {
            Some(t) => {
                let sent = send_job(t, request);
                Self::schedule_outcome(sent)
            },
            None => Err(Error::Other { reason: "sender already dropped" }),
        }
    }

    /// Closes the queue: the workers see the channel end once they have
    /// served what is queued, and every later job is refused.
    pub fn shutdown(&mut self)
        ensures
            final(self).tx is None,
    {
        self.tx = None;
    }
}

} // verus!
