use vstd::prelude::*;

use crate::command::{
    call_of, dispatch, IfDisconnected, PeerId, ProtocolName, ReputationChange,
    ServiceCall, ToServiceCommand,
};
use crate::reply::ReplySender;

verus! {

/// The service calls that a sequence of commands stands for, in the same order.
pub open spec fn calls_of(q: Seq<ToServiceCommand>) -> Seq<ServiceCall> {
    q.map_values(|c: ToServiceCommand| call_of(c))
}

/// What the relay does when it is polled once.
#[derive(Debug)]
pub enum Step {
    /// The oldest pending command was taken; the service must receive this call.
    Call(ServiceCall),
    /// No command is pending, but producer handles are still alive.
    Idle,
    /// Every handle is gone and no command is pending: the relay has stopped.
    Finished,
}

/// A producer handle: the right to put commands on the relay's queue. Only the
/// relay issues handles, each under an identifier of its own.
#[derive(Debug)]
pub struct NetworkServiceHandle {
    id: u64,
}

impl NetworkServiceHandle {
    /// The identifier under which the relay issued this handle.
    pub closed spec fn key(&self) -> u64 {
        self.id
    }
}

/// Removing one element of a sequence without duplicates removes exactly that
/// value and keeps the rest free of duplicates.
proof fn lemma_remove_distinct(s: Seq<u64>, i: int)
    requires
        s.no_duplicates(),
        0 <= i < s.len(),
    ensures
        s.remove(i).no_duplicates(),
        s.remove(i).len() == s.len() - 1,
        forall|k: u64| #[trigger] s.remove(i).contains(k) == (s.contains(k) && k != s[i]),
{
    let r = s.remove(i);
    assert forall|k: u64| #[trigger] r.contains(k) == (s.contains(k) && k != s[i]) by {
        if r.contains(k) {
            let j = choose|j: int| 0 <= j < r.len() && r[j] == k;
            if j < i {
                assert(s[j] == k);
            } else {
                assert(s[j + 1] == k);
            }
        }
        if s.contains(k) && k != s[i] {
            let j = choose|j: int| 0 <= j < s.len() && s[j] == k;
            if j < i {
                assert(r[j] == k);
            } else {
                assert(r[j - 1] == k);
            }
        }
    }
    assert forall|a: int, b: int| 0 <= a < r.len() && 0 <= b < r.len() && a != b implies r[a] != r[b] by {
        let sa = if a < i { a } else { a + 1 };
        let sb = if b < i { b } else { b + 1 };
        assert(r[a] == s[sa] && r[b] == s[sb]);
    }
}

/// Appending a value that is absent keeps a sequence free of duplicates.
proof fn lemma_push_distinct(s: Seq<u64>, x: u64)
    requires
        s.no_duplicates(),
        !s.contains(x),
    ensures
        s.push(x).no_duplicates(),
        forall|k: u64| #[trigger] s.push(x).contains(k) == (s.contains(k) || k == x),
{
    let r = s.push(x);
    assert forall|k: u64| #[trigger] r.contains(k) == (s.contains(k) || k == x) by {
        if r.contains(k) {
            let j = choose|j: int| 0 <= j < r.len() && r[j] == k;
            if j < s.len() {
                assert(s[j] == k);
            }
        }
        if s.contains(k) {
            let j = choose|j: int| 0 <= j < s.len() && s[j] == k;
            assert(r[j] == k);
        }
        if k == x {
            assert(r[s.len() as int] == k);
        }
    }
    assert forall|a: int, b: int| 0 <= a < r.len() && 0 <= b < r.len() && a != b implies r[a] != r[b] by {
        if a < s.len() && b < s.len() {
        } else if a < s.len() {
            assert(s.contains(r[a]));
        } else if b < s.len() {
            assert(s.contains(r[b]));
        }
    }
}

/// The relay: an ordered queue of commands, the identifiers of the handles it
/// issued that are still live, whether it still holds the handle it was
/// created with, and whether the consuming side has stopped.
///
/// This is a single-owner model of the relay's channel and its sender count.
/// Where producers run on other tasks, the real channel carries the commands
/// between them and its own sender count decides when the queue runs dry; the
/// order and termination facts proved here hold of this model.
pub struct NetworkServiceProvider {
    queue: Vec<ToServiceCommand>,
    live: Vec<u64>,
    own_handle: bool,
    finished: bool,
    next_id: u64,
}

impl NetworkServiceProvider {
    /// Commands waiting to be relayed, oldest first.
    pub closed spec fn pending(&self) -> Seq<ToServiceCommand> {
        self.queue@
    }

    /// Number of live producer handles, the relay's own one included.
    pub closed spec fn live_handles(&self) -> nat {
        self.live@.len() + if self.own_handle { 1nat } else { 0nat }
    }

    /// Whether the handle issued under `key` is live.
    pub closed spec fn is_live(&self, key: u64) -> bool {
        self.live@.contains(key)
    }

    /// Number of handles issued so far.
    pub closed spec fn issued(&self) -> nat {
        self.next_id as nat
    }

    /// Both relays have the same handles: the same live ones, the same count,
    /// and the same number issued.
    pub open spec fn same_handles(&self, other: &Self) -> bool {
        &&& self.live_handles() == other.live_handles()
        &&& self.holds_own_handle() == other.holds_own_handle()
        &&& self.issued() == other.issued()
        &&& forall|k: u64| #[trigger] self.is_live(k) == other.is_live(k)
    }

    /// Whether the relay still holds the handle it was created with.
    pub closed spec fn holds_own_handle(&self) -> bool {
        self.own_handle
    }

    /// Whether the consuming side has stopped for good.
    pub closed spec fn is_finished(&self) -> bool {
        self.finished
    }

    /// The relay is consistent: each live handle was issued once, and once the
    /// relay has stopped there is neither a handle nor a pending command.
    pub closed spec fn wf(&self) -> bool {
        &&& self.live@.no_duplicates()
        &&& (forall|i: int| 0 <= i < self.live@.len() ==> #[trigger] self.live@[i] < self.next_id)
        &&& (self.finished ==> self.live@.len() == 0 && self.queue@.len() == 0 && !self.own_handle)
    }

    /// Creates a relay with an empty queue and one handle, which it holds itself.
    pub fn new() -> (r: Self)
        ensures
            r.wf(),
            r.pending() == Seq::<ToServiceCommand>::empty(),
            r.live_handles() == 1,
            r.holds_own_handle(),
            !r.is_finished(),
            r.issued() == 0,
            forall|k: u64| !#[trigger] r.is_live(k),
    {
        NetworkServiceProvider {
            queue: Vec::new(),
            live: Vec::new(),
            own_handle: true,
            finished: false,
            next_id: 0,
        }
    }

    /// Hands out one more producer handle. A handle issued after the relay has
    /// stopped is not live: nothing it sends is relayed.
    pub fn handle(&mut self) -> (h: NetworkServiceHandle)
        requires
            old(self).wf(),
            old(self).issued() < u64::MAX,
        ensures
            final(self).wf(),
            final(self).pending() == old(self).pending(),
            final(self).is_finished() == old(self).is_finished(),
            final(self).holds_own_handle() == old(self).holds_own_handle(),
            final(self).issued() == old(self).issued() + 1,
            h.key() == old(self).issued(),
            !old(self).is_live(h.key()),
            !old(self).is_finished() ==> final(self).is_live(h.key()),
            forall|k: u64| #[trigger] final(self).is_live(k) == (old(self).is_live(k) || (!old(self).is_finished() && k == h.key())),
            final(self).live_handles() == old(self).live_handles() + if old(self).is_finished() { 0nat } else { 1nat },
    {
        NetworkServiceHandle::new(self)
    }

    /// Gives back a producer handle. Only a live handle counts: giving back one
    /// that is no longer live changes nothing.
    pub fn drop_handle(&mut self, h: NetworkServiceHandle)
        requires
            old(self).wf(),
        ensures
            final(self).wf(),
            final(self).pending() == old(self).pending(),
            final(self).is_finished() == old(self).is_finished(),
            final(self).holds_own_handle() == old(self).holds_own_handle(),
            final(self).issued() == old(self).issued(),
            forall|k: u64| #[trigger] final(self).is_live(k) == (old(self).is_live(k) && k != h.key()),
            final(self).live_handles() == if old(self).is_live(h.key()) {
                (old(self).live_handles() - 1) as nat
            } else {
                old(self).live_handles()
            },
    {
        let mut i: usize = 0;
        while i < self.live.len()
            invariant
                self.wf(),
                self.live@ == old(self).live@,
                self.queue@ == old(self).queue@,
                self.own_handle == old(self).own_handle,
                self.finished == old(self).finished,
                self.next_id == old(self).next_id,
                0 <= i <= self.live@.len(),
                forall|j: int| 0 <= j < i ==> self.live@[j] != h.id,
            decreases self.live@.len() - i,
        {
            if self.live[i] == h.id {
                proof {
                    lemma_remove_distinct(self.live@, i as int);
                }
                self.live.remove(i);
                return;
            }
            i = i + 1;
        }
        proof {
            assert(!self.live@.contains(h.id));
        }
    }

    /// Puts a command at the back of the queue. Once the relay has stopped the
    /// command is dropped and `false` comes back; the relay is then unchanged.
    pub fn enqueue(&mut self, c: ToServiceCommand) -> (accepted: bool)
        requires
            old(self).wf(),
        ensures
            final(self).wf(),
            accepted == !old(self).is_finished(),
            accepted ==> final(self).pending() == old(self).pending().push(c),
            !accepted ==> final(self).pending() == old(self).pending(),
            final(self).same_handles(old(self)),
            final(self).is_finished() == old(self).is_finished(),
    {
        if self.finished {
            false
        } else {
            self.queue.push(c);
            true
        }
    }

    /// Lets go of the handle that the relay was created with, so that the queue
    /// can run dry once every other handle is gone.
    pub fn release_own_handle(&mut self)
        requires
            old(self).wf(),
        ensures
            final(self).wf(),
            !final(self).holds_own_handle(),
            final(self).pending() == old(self).pending(),
            final(self).is_finished() == old(self).is_finished(),
            final(self).issued() == old(self).issued(),
            forall|k: u64| #[trigger] final(self).is_live(k) == old(self).is_live(k),
            final(self).live_handles() == if old(self).holds_own_handle() {
                (old(self).live_handles() - 1) as nat
            } else {
                old(self).live_handles()
            },
    {
        self.own_handle = false;
    }

    /// Takes every pending command, oldest first, and returns the service calls
    /// they stand for in that order.
    pub fn drain(&mut self) -> (calls: Vec<ServiceCall>)
        requires
            old(self).wf(),
        ensures
            final(self).wf(),
            calls@ == calls_of(old(self).pending()),
            final(self).pending() == Seq::<ToServiceCommand>::empty(),
            final(self).same_handles(old(self)),
            final(self).is_finished() == old(self).is_finished(),
    {
        let ghost q = self.queue@;
        let mut calls: Vec<ServiceCall> = Vec::new();
        while self.queue.len() > 0
            invariant
                self.wf(),
                self.live == old(self).live,
                self.next_id == old(self).next_id,
                self.own_handle == old(self).own_handle,
                self.finished == old(self).finished,
                q == old(self).queue@,
                calls@.len() + self.queue@.len() == q.len(),
                self.queue@ == q.subrange(calls@.len() as int, q.len() as int),
                calls@ == calls_of(q.subrange(0, calls@.len() as int)),
            decreases self.queue@.len(),
        {
            let ghost k = calls@.len() as int;
            let c = self.queue.remove(0);
            assert(c == q[k]);
            calls.push(dispatch(c));
            assert(q.subrange(0, k + 1) == q.subrange(0, k).push(q[k]));
            assert(calls_of(q.subrange(0, k + 1)) == calls_of(q.subrange(0, k)).push(call_of(q[k])));
        }
        assert(q.subrange(0, q.len() as int) == q);
        calls
    }

    /// Polls the relay once: the oldest pending command becomes a service call;
    /// with nothing pending, the relay idles while handles live and stops after.
    pub fn poll_next(&mut self) -> (s: Step)
        requires
            old(self).wf(),
        ensures
            final(self).wf(),
            final(self).same_handles(old(self)),
            old(self).pending().len() > 0 ==> {
                &&& s == Step::Call(call_of(old(self).pending()[0]))
                &&& final(self).pending() == old(self).pending().drop_first()
                &&& !final(self).is_finished()
            },
            old(self).pending().len() == 0 ==> final(self).pending() == old(self).pending(),
            old(self).pending().len() == 0 && old(self).live_handles() > 0 ==> {
                &&& s == Step::Idle
                &&& !final(self).is_finished()
            },
            old(self).pending().len() == 0 && old(self).live_handles() == 0 ==> {
                &&& s == Step::Finished
                &&& final(self).is_finished()
            },
            old(self).is_finished() ==> s == Step::Finished && final(self).is_finished(),
    {
        if self.queue.len() > 0 {
            let c = self.queue.remove(0);
            Step::Call(dispatch(c))
        } else if self.own_handle || self.live.len() > 0 {
            Step::Idle
        } else {
            self.finished = true;
            Step::Finished
        }
    }
}

/// A relay that has stopped has nothing pending, no live handle, and no handle
/// of its own.
pub proof fn lemma_stopped_relay_is_empty(r: &NetworkServiceProvider)
    requires
        r.wf(),
        r.is_finished(),
    ensures
        r.pending().len() == 0,
        r.live_handles() == 0,
        !r.holds_own_handle(),
        forall|k: u64| !#[trigger] r.is_live(k),
{
}

/// Every handle the relay counts as live adds to its count of live handles:
/// its own handle while it holds it, and each live issued handle besides.
pub proof fn lemma_live_handles_counted(r: &NetworkServiceProvider, k: u64)
    requires
        r.wf(),
    ensures
        r.holds_own_handle() ==> r.live_handles() >= 1,
        r.is_live(k) ==> r.live_handles() >= 1 + if r.holds_own_handle() { 1nat } else { 0nat },
{
    if r.live@.contains(k) {
        let j = choose|j: int| 0 <= j < r.live@.len() && r.live@[j] == k;
        assert(r.live@.len() >= 1);
    }
}

impl NetworkServiceHandle {
    /// Issues a new handle to the relay's queue, live unless the relay has
    /// already stopped.
    pub fn new(relay: &mut NetworkServiceProvider) -> (h: Self)
        requires
            old(relay).wf(),
            old(relay).issued() < u64::MAX,
        ensures
            final(relay).wf(),
            final(relay).pending() == old(relay).pending(),
            final(relay).is_finished() == old(relay).is_finished(),
            final(relay).holds_own_handle() == old(relay).holds_own_handle(),
            final(relay).issued() == old(relay).issued() + 1,
            h.key() == old(relay).issued(),
            !old(relay).is_live(h.key()),
            !old(relay).is_finished() ==> final(relay).is_live(h.key()),
            forall|k: u64| #[trigger] final(relay).is_live(k) == (old(relay).is_live(k) || (!old(relay).is_finished() && k == h.key())),
            final(relay).live_handles() == old(relay).live_handles() + if old(relay).is_finished() { 0nat } else { 1nat },
    {
        let id = relay.next_id;
        proof {
            if relay.live@.contains(id) {
                let j = choose|j: int| 0 <= j < relay.live@.len() && relay.live@[j] == id;
                assert(relay.live@[j] < relay.next_id);
            }
        }
        if !relay.finished {
            proof {
                lemma_push_distinct(relay.live@, id);
            }
            relay.live.push(id);
        }
        relay.next_id = id + 1;
        NetworkServiceHandle { id }
    }

    /// Asks for a change of a peer's reputation. Nothing is reported back;
    /// once the relay has stopped the command is silently dropped.
    pub fn report_peer(&self, relay: &mut NetworkServiceProvider, who: PeerId, cost_benefit: ReputationChange)
        requires
            old(relay).wf(),
        ensures
            final(relay).wf(),
            final(relay).pending() == if old(relay).is_finished() {
                old(relay).pending()
            } else {
                old(relay).pending().push(ToServiceCommand::ReportPeer(who, cost_benefit))
            },
            final(relay).same_handles(old(relay)),
            final(relay).is_finished() == old(relay).is_finished(),
    {
        let _ = relay.enqueue(ToServiceCommand::ReportPeer(who, cost_benefit));
    }

    /// Asks for a peer to be disconnected from a protocol. Nothing is reported
    /// back; once the relay has stopped the command is silently dropped.
    pub fn disconnect_peer(&self, relay: &mut NetworkServiceProvider, who: PeerId, protocol: ProtocolName)
        requires
            old(relay).wf(),
        ensures
            final(relay).wf(),
            final(relay).pending() == if old(relay).is_finished() {
                old(relay).pending()
            } else {
                old(relay).pending().push(ToServiceCommand::DisconnectPeer(who, protocol))
            },
            final(relay).same_handles(old(relay)),
            final(relay).is_finished() == old(relay).is_finished(),
    {
        let _ = relay.enqueue(ToServiceCommand::DisconnectPeer(who, protocol));
    }

    /// Asks for a request to be sent to a peer; its outcome is written to
    /// `tx`. Returns whether the command was queued: when it was not, the relay
    /// had stopped and the reply slot is dropped unwritten.
    pub fn start_request(
        &self,
        relay: &mut NetworkServiceProvider,
        who: PeerId,
        protocol: ProtocolName,
        request: Vec<u8>,
        tx: ReplySender,
        connect: IfDisconnected,
    ) -> (queued: bool)
        requires
            old(relay).wf(),
        ensures
            final(relay).wf(),
            queued == !old(relay).is_finished(),
            final(relay).pending() == if queued {
                old(relay).pending().push(ToServiceCommand::StartRequest(who, protocol, request, tx, connect))
            } else {
                old(relay).pending()
            },
            final(relay).same_handles(old(relay)),
            final(relay).is_finished() == old(relay).is_finished(),
    {
        relay.enqueue(ToServiceCommand::StartRequest(who, protocol, request, tx, connect))
    }
}

} // verus!
