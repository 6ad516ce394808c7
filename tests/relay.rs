use futures::channel::oneshot;
use sync_service::command::{
    dispatch, IfDisconnected, PeerId, ProtocolName, ReputationChange, ServiceCall, ToServiceCommand,
};
use sync_service::relay::{NetworkServiceHandle, NetworkServiceProvider, Step};
use sync_service::reply::{receive_reply, ReplyChannelClosed, ReplySender, RequestFailure, RequestResult};
use sync_service::service::CallLog;

#[derive(Debug, PartialEq)]
enum Seen {
    Disconnect(Vec<u8>, String),
    Report(Vec<u8>, i32, String),
    Request(Vec<u8>, String, Vec<u8>, bool, IfDisconnected),
}

/// Records calls through the library's own call log, and reads them back
/// without their reply senders, which are kept aside.
#[derive(Default)]
struct Recorder {
    log: Option<CallLog>,
    seen: Vec<Seen>,
    replies: Vec<ReplySender>,
}

impl Recorder {
    fn network(&mut self) -> &mut CallLog {
        self.log.get_or_insert_with(|| CallLog { calls: Vec::new() })
    }

    fn collect(&mut self) {
        if let Some(log) = self.log.as_mut() {
            for call in log.calls.drain(..) {
                match call {
                    ServiceCall::DisconnectPeer { who, protocol } => {
                        self.seen.push(Seen::Disconnect(who.bytes, protocol.name))
                    }
                    ServiceCall::ReportPeer { who, change } => {
                        self.seen.push(Seen::Report(who.bytes, change.value, change.reason))
                    }
                    ServiceCall::StartRequest { who, protocol, request, fallback, reply, connect } => {
                        self.seen.push(Seen::Request(who.bytes, protocol.name, request, fallback.is_some(), connect));
                        self.replies.push(reply);
                    }
                }
            }
        }
    }
}

fn run(provider: &mut NetworkServiceProvider, recorder: &mut Recorder) -> bool {
    let stopped = provider.run(recorder.network());
    recorder.collect();
    stopped
}

fn peer(b: u8) -> PeerId {
    PeerId { bytes: vec![0, 36, b, b] }
}

fn proto(s: &str) -> ProtocolName {
    ProtocolName { name: s.to_string() }
}

#[test]
fn disconnect_and_report_peer() {
    let mut provider = NetworkServiceProvider::new();
    let handle = provider.handle();

    let p = peer(7);
    let change = ReputationChange { value: i32::MIN, reason: "test-change".to_string() };

    handle.disconnect_peer(&mut provider, p.clone(), proto("test-protocol"));
    handle.report_peer(&mut provider, p.clone(), change);

    let mut network = Recorder::default();
    let stopped = run(&mut provider, &mut network);
    assert!(!stopped);
    assert_eq!(
        network.seen,
        vec![
            Seen::Disconnect(p.bytes.clone(), "test-protocol".to_string()),
            Seen::Report(p.bytes.clone(), i32::MIN, "test-change".to_string()),
        ]
    );
}

#[test]
fn disconnect_then_report_from_two_handles() {
    let mut provider = NetworkServiceProvider::new();
    let a = provider.handle();
    let b = provider.handle();
    let p = peer(1);
    a.disconnect_peer(&mut provider, p.clone(), proto("sync/1"));
    b.report_peer(&mut provider, p.clone(), ReputationChange { value: -100, reason: "bad".to_string() });
    let mut network = Recorder::default();
    run(&mut provider, &mut network);
    assert_eq!(
        network.seen,
        vec![
            Seen::Disconnect(p.bytes.clone(), "sync/1".to_string()),
            Seen::Report(p.bytes.clone(), -100, "bad".to_string()),
        ]
    );
}

#[test]
fn start_request_passes_arguments_and_slot() {
    let mut provider = NetworkServiceProvider::new();
    let h = provider.handle();
    let p = peer(2);
    let (tx, mut rx) = oneshot::channel::<RequestResult>();
    let queued = h.start_request(&mut provider, p.clone(), proto("sync/1"), vec![1, 2, 3], tx, IfDisconnected::TryConnect);
    assert!(queued);
    let mut network = Recorder::default();
    run(&mut provider, &mut network);
    assert_eq!(
        network.seen,
        vec![Seen::Request(p.bytes.clone(), "sync/1".to_string(), vec![1, 2, 3], false, IfDisconnected::TryConnect)]
    );
    assert_eq!(network.replies.len(), 1);
    let slot = network.replies.pop().unwrap();
    assert!(slot.send(Ok((vec![9, 9], proto("sync/1")))).is_ok());
    let received = rx.try_recv().map(|v| v.expect("reply written"));
    assert_eq!(receive_reply(received), Ok(Ok((vec![9, 9], proto("sync/1")))));
}

#[test]
fn dropped_reply_slot_is_local_closure() {
    let mut provider = NetworkServiceProvider::new();
    let h = provider.handle();
    let (tx, mut rx) = oneshot::channel::<RequestResult>();
    h.start_request(&mut provider, peer(3), proto("sync/1"), vec![], tx, IfDisconnected::ImmediateError);
    let mut network = Recorder::default();
    run(&mut provider, &mut network);
    network.replies.clear();
    let received = rx.try_recv().map(|v| v.expect("no pending state after drop"));
    assert_eq!(receive_reply(received), Err(ReplyChannelClosed));
}

#[test]
fn network_failure_reaches_caller() {
    let mut provider = NetworkServiceProvider::new();
    let h = provider.handle();
    let (tx, mut rx) = oneshot::channel::<RequestResult>();
    h.start_request(&mut provider, peer(4), proto("sync/1"), vec![7], tx, IfDisconnected::TryConnect);
    let mut network = Recorder::default();
    run(&mut provider, &mut network);
    assert!(network.replies.pop().unwrap().send(Err(RequestFailure::Refused)).is_ok());
    let received = rx.try_recv().map(|v| v.expect("reply written"));
    assert_eq!(receive_reply(received), Ok(Err(RequestFailure::Refused)));
}

#[test]
fn interleaved_handles_keep_arrival_order() {
    let mut provider = NetworkServiceProvider::new();
    let a = provider.handle();
    let b = provider.handle();
    a.disconnect_peer(&mut provider, peer(1), proto("x"));
    b.disconnect_peer(&mut provider, peer(2), proto("y"));
    a.report_peer(&mut provider, peer(3), ReputationChange { value: 5, reason: "r".to_string() });
    b.disconnect_peer(&mut provider, peer(4), proto("z"));
    let calls = provider.drain();
    assert_eq!(calls.len(), 4);
    match &calls[0] {
        ServiceCall::DisconnectPeer { who, protocol } => {
            assert_eq!(who, &peer(1));
            assert_eq!(protocol, &proto("x"));
        }
        other => panic!("unexpected call {:?}", other),
    }
    assert!(matches!(&calls[1], ServiceCall::DisconnectPeer { who, .. } if *who == peer(2)));
    assert!(matches!(&calls[2], ServiceCall::ReportPeer { who, change } if *who == peer(3) && change.value == 5));
    assert!(matches!(&calls[3], ServiceCall::DisconnectPeer { who, .. } if *who == peer(4)));
    assert!(provider.drain().is_empty());
}

#[test]
fn relay_stops_after_last_handle_dropped() {
    let mut provider = NetworkServiceProvider::new();
    let h = provider.handle();
    h.disconnect_peer(&mut provider, peer(1), proto("sync/1"));
    let mut network = Recorder::default();
    assert!(!run(&mut provider, &mut network));
    assert_eq!(network.seen.len(), 1);
    provider.drop_handle(h);
    assert!(run(&mut provider, &mut network));
    assert_eq!(network.seen.len(), 1);
    assert!(matches!(provider.poll_next(), Step::Finished));
}

#[test]
fn relay_stops_with_no_handle_handed_out() {
    let mut provider = NetworkServiceProvider::new();
    assert!(matches!(provider.poll_next(), Step::Idle));
    let mut network = Recorder::default();
    assert!(run(&mut provider, &mut network));
    assert!(network.seen.is_empty());
}

#[test]
fn commands_after_stop_are_dropped() {
    let mut provider = NetworkServiceProvider::new();
    let first = provider.handle();
    provider.drop_handle(first);
    let mut network = Recorder::default();
    assert!(run(&mut provider, &mut network));
    let h = NetworkServiceHandle::new(&mut provider);
    h.disconnect_peer(&mut provider, peer(1), proto("sync/1"));
    h.report_peer(&mut provider, peer(1), ReputationChange { value: -1, reason: "late".to_string() });
    let (tx, mut rx) = oneshot::channel::<RequestResult>();
    let queued = h.start_request(&mut provider, peer(1), proto("sync/1"), vec![1], tx, IfDisconnected::ImmediateError);
    assert!(!queued);
    let received = rx.try_recv().map(|v| v.expect("slot dropped"));
    assert_eq!(receive_reply(received), Err(ReplyChannelClosed));
    assert!(!provider.enqueue(ToServiceCommand::DisconnectPeer(peer(1), proto("a"))));
    assert!(provider.drain().is_empty());
    assert!(matches!(provider.poll_next(), Step::Finished));
    assert!(run(&mut provider, &mut network));
    assert!(network.seen.is_empty());
}

#[test]
fn poll_takes_oldest_command_first() {
    let mut provider = NetworkServiceProvider::new();
    provider.enqueue(ToServiceCommand::ReportPeer(peer(9), ReputationChange { value: 3, reason: "ok".to_string() }));
    provider.enqueue(ToServiceCommand::DisconnectPeer(peer(8), proto("b")));
    assert!(matches!(provider.poll_next(), Step::Call(ServiceCall::ReportPeer { change, .. }) if change.value == 3));
    assert!(matches!(provider.poll_next(), Step::Call(ServiceCall::DisconnectPeer { who, .. }) if who == peer(8)));
    assert!(matches!(provider.poll_next(), Step::Idle));
}

#[test]
fn dispatch_sets_no_fallback() {
    let (tx, mut rx) = oneshot::channel::<RequestResult>();
    let call = dispatch(ToServiceCommand::StartRequest(peer(5), proto("p"), vec![4], tx, IfDisconnected::ImmediateError));
    match call {
        ServiceCall::StartRequest { who, protocol, request, fallback, reply, connect } => {
            assert_eq!(who, peer(5));
            assert_eq!(protocol, proto("p"));
            assert_eq!(request, vec![4]);
            assert!(fallback.is_none());
            assert_eq!(connect, IfDisconnected::ImmediateError);
            assert!(reply.send(Err(RequestFailure::NotConnected)).is_ok());
            assert_eq!(rx.try_recv(), Ok(Some(Err(RequestFailure::NotConnected))));
        }
        other => panic!("unexpected call {:?}", other),
    }
}

#[test]
fn dropping_a_handle_twice_counts_once() {
    let mut provider = NetworkServiceProvider::new();
    let a = provider.handle();
    let b = provider.handle();
    let mut network = Recorder::default();
    assert!(!run(&mut provider, &mut network));
    provider.drop_handle(a);
    assert!(!run(&mut provider, &mut network));
    b.disconnect_peer(&mut provider, peer(6), proto("sync/1"));
    assert!(!run(&mut provider, &mut network));
    assert_eq!(network.seen, vec![Seen::Disconnect(peer(6).bytes, "sync/1".to_string())]);
    provider.drop_handle(b);
    assert!(run(&mut provider, &mut network));
}

#[test]
fn call_log_records_calls_in_order() {
    let mut provider = NetworkServiceProvider::new();
    let h = provider.handle();
    h.report_peer(&mut provider, peer(1), ReputationChange { value: -100, reason: "x".to_string() });
    h.disconnect_peer(&mut provider, peer(1), proto("sync/1"));
    provider.drop_handle(h);
    let mut log = CallLog { calls: Vec::new() };
    assert!(provider.run(&mut log));
    assert_eq!(log.calls.len(), 2);
    assert!(matches!(&log.calls[0], ServiceCall::ReportPeer { change, .. } if change.value == -100));
    assert!(matches!(&log.calls[1], ServiceCall::DisconnectPeer { protocol, .. } if protocol.name == "sync/1"));
}
