//! Handing jobs to the workers' channel.
//!
//! A job handed to the channel comes back as a receipt where the channel
//! took it, or inside a refusal where every worker is gone. Only the send
//! below builds either, so holding one shows that the send was made.

use vstd::prelude::*;
use crate::inference_core::modelpool::SendBackMessage;

verus! {

/// The record that a job was taken by the workers' channel.
pub struct JobReceipt {
    job: Ghost<SendBackMessage>,
}

impl JobReceipt {
    /// The job that the channel took.
    pub closed spec fn job(&self) -> SendBackMessage {
        self.job@
    }
}

/// A job that the workers' channel refused because every worker is gone;
/// it holds the job, handed back.
pub struct RefusedJob {
    job: SendBackMessage,
}

impl RefusedJob {
    /// The job that the channel refused.
    pub closed spec fn job(&self) -> SendBackMessage {
        self.job
    }

    /// The prompt of the refused job.
    pub fn prompt(&self) -> (p: &String)
        ensures
            *p == (match self.job() {
                SendBackMessage::Streaming { prompt, .. } => prompt,
                SendBackMessage::Blocking { prompt, .. } => prompt,
            }),
    {
        self.job.prompt()
    }

    /// The refused job, handed back.
    pub fn into_job(self) -> (m: SendBackMessage)
        ensures
            m == self.job(),
    {
        self.job
    }
}

/// `crossbeam_channel::Sender::send`: hands `msg` to the channel. It fails
/// only where every receiver of the channel is gone, and then hands the
/// message back (the `SendError` holds it). Which of the two comes back
/// depends on the workers, so that is not stated. On a bounded channel the
/// call waits for room.
#[verifier::external_body]
pub(crate) fn send_job(
    tx: &crossbeam_channel::Sender<SendBackMessage>,
    msg: SendBackMessage,
) -> (r: Result<JobReceipt, RefusedJob>)
    ensures
        match r {
            Ok(rc) => rc.job() == msg,
            Err(rj) => rj.job() == msg,
        },
{
    let ghost sent = msg;
    match tx.send(msg) {
        Ok(()) => Ok(JobReceipt { job: Ghost(sent) }),
        Err(crossbeam_channel::SendError(m)) => Err(RefusedJob { job: m }),
    }
}

} // verus!
