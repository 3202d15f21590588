//! What a caller is told of its request.
//!
//! A caller sends a wrapped request on the queue and, where it wants the
//! response, waits on the reply slot. Both waits belong to the
//! asynchronous code around this library; what they end in is judged here.

use crate::error::Error;
use tokio::sync::mpsc;
use tokio::sync::oneshot;
use vstd::prelude::*;

verus! {

/// What a send on the queue gives when nothing listens on it any more,
/// `tokio::sync::mpsc::error::SendError`.
#[verifier::external_type_specification]
#[verifier::external_body]
#[verifier::reject_recursive_types(T)]
pub struct ExQueueClosed<T>(mpsc::error::SendError<T>);

/// What awaiting a reply slot gives when the slot was given up,
/// `tokio::sync::oneshot::error::RecvError`.
#[verifier::external_type_specification]
#[verifier::external_body]
pub struct ExReplyLost(oneshot::error::RecvError);

/// What a caller that wants no response is told, by whether the queue took
/// its request.
pub open spec fn notice_outcome(taken: bool) -> Result<(), Error> {
    if taken {
        Ok(())
    } else {
        Err(Error::RequestFailure)
    }
}

/// What a caller that wants a response is told, by whether the queue took
/// its request and by what came out of the reply slot, if anything did.
pub open spec fn call_outcome<Resp>(taken: bool, reply: Option<Resp>) -> Result<Resp, Error> {
    if !taken {
        Err(Error::RequestFailure)
    } else {
        match reply {
            Some(response) => Ok(response),
            None => Err(Error::ResponseFailure),
        }
    }
}

/// What came out of a reply slot, if anything did.
pub open spec fn reply<Resp>(received: Result<Resp, oneshot::error::RecvError>) -> Option<Resp> {
    match received {
        Ok(response) => Some(response),
        Err(_) => None,
    }
}

/// Tells a caller how the send of its request on the queue ended: a
/// request that the queue did not take is a `RequestFailure`.
pub fn accepted<M>(sent: Result<(), mpsc::error::SendError<M>>) -> (outcome: Result<(), Error>)
    ensures
        outcome == notice_outcome(sent is Ok),
{
    match sent {
        Ok(_) => Ok(()),
        Err(_) => Err(Error::RequestFailure),
    }
}

/// Tells a caller whose request the queue took what its wait on the reply
/// slot ended in: the response, or a `ResponseFailure` where the slot was
/// given up empty.
pub fn answered<Resp>(received: Result<Resp, oneshot::error::RecvError>) -> (outcome: Result<
    Resp,
    Error,
>)
    ensures
        outcome == call_outcome(true, reply(received)),
{
    match received {
        Ok(response) => Ok(response),
        Err(_) => Err(Error::ResponseFailure),
    }
}

} // verus!
