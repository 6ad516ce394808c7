use vstd::prelude::*;

use crate::command::{
    call_of, IfDisconnected, PeerId, ProtocolName, ReputationChange, ServiceCall,
    ToServiceCommand,
};
use crate::relay::calls_of;
use futures::channel::oneshot;

use crate::reply::{reply_outcome, ReplyChannelClosed, ReplySender, RequestResult};

verus! {

/// Commands are relayed in the order in which they were queued, whichever
/// handle queued them: the calls for the pending commands followed by newly
/// queued ones are the calls for the old ones, then those for the new ones,
/// the i-th new call standing for the i-th new command.
pub proof fn lemma_calls_keep_queue_order(pending: Seq<ToServiceCommand>, added: Seq<ToServiceCommand>)
    ensures
        calls_of(pending + added) == calls_of(pending) + calls_of(added),
        calls_of(added).len() == added.len(),
        forall|i: int| 0 <= i < added.len() ==> #[trigger] calls_of(added)[i] == call_of(added[i]),
{
    assert(calls_of(pending + added) =~= calls_of(pending) + calls_of(added));
}

/// A queued disconnect or reputation command gives exactly one service call,
/// with the same arguments, after the calls of the commands queued before it.
pub proof fn lemma_fire_and_forget_single_call(
    pending: Seq<ToServiceCommand>,
    who: PeerId,
    protocol: ProtocolName,
    change: ReputationChange,
)
    ensures
        calls_of(pending.push(ToServiceCommand::DisconnectPeer(who, protocol)))
            == calls_of(pending).push(ServiceCall::DisconnectPeer { who, protocol }),
        calls_of(pending.push(ToServiceCommand::ReportPeer(who, change)))
            == calls_of(pending).push(ServiceCall::ReportPeer { who, change }),
{
    assert(calls_of(pending.push(ToServiceCommand::DisconnectPeer(who, protocol)))
        =~= calls_of(pending).push(ServiceCall::DisconnectPeer { who, protocol }));
    assert(calls_of(pending.push(ToServiceCommand::ReportPeer(who, change)))
        =~= calls_of(pending).push(ServiceCall::ReportPeer { who, change }));
}

/// A queued request gives exactly one service call that carries the caller's
/// arguments and its reply slot unchanged, with no fallback; the caller then
/// sees exactly what the service wrote to the slot, or the local closure
/// failure if the slot was dropped unwritten.
pub proof fn lemma_request_passes_reply_slot(
    pending: Seq<ToServiceCommand>,
    who: PeerId,
    protocol: ProtocolName,
    request: Vec<u8>,
    tx: ReplySender,
    connect: IfDisconnected,
    received: Result<RequestResult, oneshot::Canceled>,
)
    ensures
        calls_of(pending.push(ToServiceCommand::StartRequest(who, protocol, request, tx, connect)))
            == calls_of(pending).push(
            ServiceCall::StartRequest { who, protocol, request, fallback: None, reply: tx, connect },
        ),
        match received {
            Ok(v) => reply_outcome(received) == Ok::<RequestResult, ReplyChannelClosed>(v),
            Err(_) => reply_outcome(received) == Err::<RequestResult, ReplyChannelClosed>(ReplyChannelClosed),
        },
{
    assert(calls_of(pending.push(ToServiceCommand::StartRequest(who, protocol, request, tx, connect)))
        =~= calls_of(pending).push(
        ServiceCall::StartRequest { who, protocol, request, fallback: None, reply: tx, connect },
    ));
}

} // verus!
