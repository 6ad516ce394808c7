use vstd::prelude::*;

use crate::command::{IfDisconnected, PeerId, ProtocolName, ReputationChange, ServiceCall, ToServiceCommand};
use crate::relay::{calls_of, lemma_live_handles_counted, NetworkServiceProvider, Step};
use crate::reply::ReplySender;

verus! {

/// The network operations that the relay calls on behalf of its producers.
/// `received` is the log of the calls an implementation has been given, in
/// order; each operation adds its own call to it and nothing else.
pub trait Network {
    /// Every call received so far, oldest first.
    spec fn received(&self) -> Seq<ServiceCall>;

    /// Disconnects a peer from a protocol; best effort.
    fn disconnect_peer(&mut self, who: PeerId, protocol: ProtocolName)
        ensures
            final(self).received() == old(self).received().push(ServiceCall::DisconnectPeer { who, protocol }),
    ;

    /// Applies a change to a peer's reputation; best effort.
    fn report_peer(&mut self, who: PeerId, change: ReputationChange)
        ensures
            final(self).received() == old(self).received().push(ServiceCall::ReportPeer { who, change }),
    ;

    /// Dispatches a request without waiting for it; the outcome is written to
    /// `reply` later, or `reply` is dropped.
    fn start_request(
        &mut self,
        who: PeerId,
        protocol: ProtocolName,
        request: Vec<u8>,
        fallback: Option<(Vec<u8>, ProtocolName)>,
        reply: ReplySender,
        connect: IfDisconnected,
    )
        ensures
            final(self).received() == old(self).received().push(
                ServiceCall::StartRequest { who, protocol, request, fallback, reply, connect },
            ),
    ;
}

/// A network that only records the calls it is given.
pub struct CallLog {
    pub calls: Vec<ServiceCall>,
}

impl Network for CallLog {
    open spec fn received(&self) -> Seq<ServiceCall> {
        self.calls@
    }

    fn disconnect_peer(&mut self, who: PeerId, protocol: ProtocolName) {
        self.calls.push(ServiceCall::DisconnectPeer { who, protocol });
    }

    fn report_peer(&mut self, who: PeerId, change: ReputationChange) {
        self.calls.push(ServiceCall::ReportPeer { who, change });
    }

    fn start_request(
        &mut self,
        who: PeerId,
        protocol: ProtocolName,
        request: Vec<u8>,
        fallback: Option<(Vec<u8>, ProtocolName)>,
        reply: ReplySender,
        connect: IfDisconnected,
    ) {
        self.calls.push(ServiceCall::StartRequest { who, protocol, request, fallback, reply, connect });
    }
}

/// Makes one service call on the network.
pub fn perform<N: Network>(service: &mut N, call: ServiceCall)
    ensures
        final(service).received() == old(service).received().push(call),
{
    match call {
        ServiceCall::DisconnectPeer { who, protocol } => service.disconnect_peer(who, protocol),
        ServiceCall::ReportPeer { who, change } => service.report_peer(who, change),
        ServiceCall::StartRequest { who, protocol, request, fallback, reply, connect } => {
            service.start_request(who, protocol, request, fallback, reply, connect)
        },
    }
}

impl NetworkServiceProvider {
    /// Runs the relay over what is queued: lets go of its own handle, makes the
    /// service call of every pending command in arrival order, then stops if no
    /// live handle is left. Returns whether the relay has stopped. The service
    /// receives exactly the calls of the pending commands, in order, and no
    /// other; a handle that stays live keeps the relay running.
    pub fn run<N: Network>(&mut self, service: &mut N) -> (stopped: bool)
        requires
            old(self).wf(),
        ensures
            final(self).wf(),
            final(service).received() == old(service).received() + calls_of(old(self).pending()),
            final(self).pending() == Seq::<ToServiceCommand>::empty(),
            !final(self).holds_own_handle(),
            final(self).issued() == old(self).issued(),
            forall|k: u64| #[trigger] final(self).is_live(k) == old(self).is_live(k),
            final(self).live_handles() == if old(self).holds_own_handle() {
                (old(self).live_handles() - 1) as nat
            } else {
                old(self).live_handles()
            },
            stopped == final(self).is_finished(),
            stopped == (final(self).live_handles() == 0),
            forall|k: u64| #[trigger] old(self).is_live(k) ==> !stopped,
    {
        self.release_own_handle();
        proof {
            assert forall|k: u64| #[trigger] old(self).is_live(k) implies self.live_handles() >= 1 by {
                lemma_live_handles_counted(self, k);
            }
        }
        let calls = self.drain();
        let ghost all = calls@;
        let ghost start = service.received();
        let ghost mut i: int = 0;
        let mut rest = calls;
        proof {
            assert(all.subrange(0, all.len() as int) == all);
            assert(all.subrange(0, 0) == Seq::<ServiceCall>::empty());
            assert(start + Seq::<ServiceCall>::empty() == start);
        }
        while rest.len() > 0
            invariant
                0 <= i <= all.len(),
                rest@ == all.subrange(i, all.len() as int),
                service.received() == start + all.subrange(0, i),
            decreases rest@.len(),
        {
            let call = rest.remove(0);
            proof {
                assert(call == all[i]);
                assert(all.subrange(0, i + 1) == all.subrange(0, i).push(all[i]));
            }
            perform(service, call);
            proof {
                assert(service.received() == start + all.subrange(0, i + 1));
            }
            proof {
                i = i + 1;
            }
        }
        proof {
            assert(all.subrange(0, all.len() as int) == all);
        }
        match self.poll_next() {
            Step::Finished => true,
            _ => false,
        }
    }
}

} // verus!
