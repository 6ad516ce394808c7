use vstd::prelude::*;

use futures::channel::oneshot;

use crate::command::ProtocolName;

verus! {

/// Why the network service could not complete a request.
#[derive(Clone, Copy, Debug, PartialEq, Eq, Structural)]
pub enum RequestFailure {
    NotConnected,
    UnknownProtocol,
    Refused,
    Obsolete,
    Network,
}

/// The reply slot was dropped before anything was written to it: the relay or
/// the service let go of the request. This is a local failure, not a network one.
#[derive(Clone, Copy, Debug, PartialEq, Eq, Structural)]
pub struct ReplyChannelClosed;

/// What the network service may write to a reply slot.
pub type RequestResult = Result<(Vec<u8>, ProtocolName), RequestFailure>;

/// The write end of a one-shot reply channel: it is written at most once, and
/// a reader whose slot is dropped unwritten sees `oneshot::Canceled`.
pub type ReplySender = oneshot::Sender<RequestResult>;

/// The write end of `futures::channel::oneshot`, carried through the relay as
/// an opaque value.
#[verifier::external_type_specification]
#[verifier::external_body]
#[verifier::reject_recursive_types(T)]
pub struct ExOneshotSender<T>(oneshot::Sender<T>);

/// `futures::channel::oneshot::Canceled`: what awaiting a reply channel yields
/// when its write end was dropped unwritten.
#[verifier::external_type_specification]
#[verifier::external_body]
pub struct ExOneshotCanceled(oneshot::Canceled);

/// What the caller of a request observes, given what awaiting its reply
/// channel gave: the written value, or the local closure failure.
pub open spec fn reply_outcome(received: Result<RequestResult, oneshot::Canceled>) -> Result<RequestResult, ReplyChannelClosed> {
    match received {
        Ok(v) => Ok(v),
        Err(_) => Err(ReplyChannelClosed),
    }
}

/// Resolves a caller's wait on its reply channel: the written value if there
/// was one, the local closure failure if the slot was dropped unwritten.
pub fn receive_reply(received: Result<RequestResult, oneshot::Canceled>) -> (r: Result<RequestResult, ReplyChannelClosed>)
    ensures
        r == reply_outcome(received),
{
    match received {
        Ok(v) => Ok(v),
        Err(_) => Err(ReplyChannelClosed),
    }
}

} // verus!
