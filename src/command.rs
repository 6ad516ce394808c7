use vstd::prelude::*;

use crate::reply::ReplySender;

verus! {

/// Identifier of a remote peer, held as the bytes of its multihash encoding.
#[derive(Clone, Debug, PartialEq, Eq)]
pub struct PeerId {
    pub bytes: Vec<u8>,
}

/// Name of a network protocol, e.g. `/sync/1`.
#[derive(Clone, Debug, PartialEq, Eq)]
pub struct ProtocolName {
    pub name: String,
}

/// A signed change of a peer's reputation together with its reason.
#[derive(Clone, Debug, PartialEq, Eq)]
pub struct ReputationChange {
    pub value: i32,
    pub reason: String,
}

/// Whether a request may open a connection to a peer that is not connected.
#[derive(Clone, Copy, Debug, PartialEq, Eq, Structural)]
pub enum IfDisconnected {
    TryConnect,
    ImmediateError,
}

/// Commands that the synchronization engine asks the network service to run.
#[derive(Debug)]
pub enum ToServiceCommand {
    /// Disconnect a peer from a protocol.
    DisconnectPeer(PeerId, ProtocolName),
    /// Change the reputation of a peer.
    ReportPeer(PeerId, ReputationChange),
    /// Send a request to a peer; its result is written to the reply slot.
    StartRequest(PeerId, ProtocolName, Vec<u8>, ReplySender, IfDisconnected),
}

/// A call into the network service, with the exact arguments it receives.
#[derive(Debug)]
pub enum ServiceCall {
    DisconnectPeer { who: PeerId, protocol: ProtocolName },
    ReportPeer { who: PeerId, change: ReputationChange },
    StartRequest {
        who: PeerId,
        protocol: ProtocolName,
        request: Vec<u8>,
        fallback: Option<(Vec<u8>, ProtocolName)>,
        reply: ReplySender,
        connect: IfDisconnected,
    },
}

/// The service call that a command stands for.
pub open spec fn call_of(c: ToServiceCommand) -> ServiceCall {
    match c {
        ToServiceCommand::DisconnectPeer(who, protocol) => ServiceCall::DisconnectPeer { who, protocol },
        ToServiceCommand::ReportPeer(who, change) => ServiceCall::ReportPeer { who, change },
        ToServiceCommand::StartRequest(who, protocol, request, reply, connect) => ServiceCall::StartRequest {
            who,
            protocol,
            request,
            fallback: None,
            reply,
            connect,
        },
    }
}

/// Turns a command into the service call that carries it out.
pub fn dispatch(c: ToServiceCommand) -> (r: ServiceCall)
    ensures
        r == call_of(c),
{
    match c {
        ToServiceCommand::DisconnectPeer(who, protocol) => ServiceCall::DisconnectPeer { who, protocol },
        ToServiceCommand::ReportPeer(who, change) => ServiceCall::ReportPeer { who, change },
        ToServiceCommand::StartRequest(who, protocol, request, reply, connect) => ServiceCall::StartRequest {
            who,
            protocol,
            request,
            fallback: None,
            reply,
            connect,
        },
    }
}

} // verus!
