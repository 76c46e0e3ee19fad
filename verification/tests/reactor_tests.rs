//! The serve-phase reactor: registration lifecycles, scattering to the
//! log and to attach clients, the stdin gatherer, signal forwarding and
//! the drain phase.

use shimmy::logfmt::StreamKind;
use shimmy::reactor::{
    classify_token, Action, ClientEvent, Error, Reactor, SinkId, StreamEvent, TokenClass,
    TOKEN_ATTACH, TOKEN_SIGNAL, TOKEN_STDERR, TOKEN_STDOUT, TOKEN_UNUSED,
};
use shimmy::status::TerminationStatus;

fn full_reactor() -> Reactor {
    let (reactor, acts) = Reactor::new(4242, true, false, true, true);
    assert_eq!(acts.len(), 4);
    assert!(matches!(acts[0], Action::Register(TOKEN_STDOUT)));
    assert!(matches!(acts[1], Action::Register(TOKEN_STDERR)));
    assert!(matches!(acts[2], Action::Register(TOKEN_SIGNAL)));
    assert!(matches!(acts[3], Action::Register(TOKEN_ATTACH)));
    reactor
}

#[test]
fn new_reactor_serves_with_log_sinks() {
    let reactor = full_reactor();
    assert!(reactor.serving());
    assert_eq!(reactor.heartbeat_ms, 5000);
    let sinks = &reactor.stdout_scatterer.as_ref().unwrap().sinks;
    assert_eq!(sinks.len(), 1);
    assert!(matches!(sinks[0], SinkId::Log));
    assert_eq!(reactor.attach_last_token, TOKEN_UNUSED);
}

#[test]
fn stdout_data_reaches_log_and_both_clients_tagged() {
    let mut reactor = full_reactor();
    let (a, acts_a) = reactor.register_attach_client();
    assert!(matches!(acts_a[0], Action::Register(t) if t == a));
    let (b, _) = reactor.register_attach_client();
    assert_eq!(a, TOKEN_UNUSED + 1);
    assert_eq!(b, TOKEN_UNUSED + 2);

    let acts = reactor.handle_stream_event(StreamKind::Stdout, StreamEvent::Data(b"X".to_vec()));
    assert_eq!(acts.len(), 3);
    match &acts[0] {
        Action::WriteLog(stream, data) => {
            assert_eq!(*stream, StreamKind::Stdout);
            assert_eq!(data, &b"X".to_vec());
        }
        other => panic!("expected a log write, got {:?}", other),
    }
    match &acts[1] {
        Action::WriteAttach(token, data) => {
            assert_eq!(*token, a);
            assert_eq!(data, &vec![1u8, b'X']);
        }
        other => panic!("expected a client write, got {:?}", other),
    }
    match &acts[2] {
        Action::WriteAttach(token, data) => {
            assert_eq!(*token, b);
            assert_eq!(data, &vec![1u8, b'X']);
        }
        other => panic!("expected a client write, got {:?}", other),
    }
}

#[test]
fn stderr_data_is_tagged_two() {
    let mut reactor = full_reactor();
    let (a, _) = reactor.register_attach_client();
    let acts = reactor.handle_stream_event(StreamKind::Stderr, StreamEvent::Data(b"e".to_vec()));
    assert_eq!(acts.len(), 2);
    assert!(matches!(&acts[0], Action::WriteLog(StreamKind::Stderr, _)));
    match &acts[1] {
        Action::WriteAttach(token, data) => {
            assert_eq!(*token, a);
            assert_eq!(data, &vec![2u8, b'e']);
        }
        other => panic!("expected a client write, got {:?}", other),
    }
}

#[test]
fn failed_sink_is_removed_and_rest_keep_receiving() {
    let mut reactor = full_reactor();
    let (a, _) = reactor.register_attach_client();
    let (b, _) = reactor.register_attach_client();

    reactor.remove_failed_sinks(StreamKind::Stdout, &vec![SinkId::Attach(a)]);
    let acts = reactor.handle_stream_event(StreamKind::Stdout, StreamEvent::Data(b"Y".to_vec()));
    assert_eq!(acts.len(), 2);
    assert!(matches!(&acts[0], Action::WriteLog(StreamKind::Stdout, _)));
    match &acts[1] {
        Action::WriteAttach(token, data) => {
            assert_eq!(*token, b);
            assert_eq!(data, &vec![1u8, b'Y']);
        }
        other => panic!("expected a client write, got {:?}", other),
    }
}

#[test]
fn stdout_eof_deregisters_then_closes() {
    let mut reactor = full_reactor();
    let acts = reactor.handle_stream_event(StreamKind::Stdout, StreamEvent::Eof);
    assert_eq!(acts.len(), 2);
    assert!(matches!(acts[0], Action::Deregister(TOKEN_STDOUT)));
    assert!(matches!(acts[1], Action::Close(TOKEN_STDOUT)));
    assert!(reactor.stdout_scatterer.is_none());
    assert!(reactor.stderr_scatterer.is_some());
}

#[test]
fn stream_read_error_deregisters() {
    let mut reactor = full_reactor();
    let acts = reactor.handle_stream_event(StreamKind::Stderr, StreamEvent::Failed(Error::Source(5)));
    assert!(matches!(acts[0], Action::Deregister(TOKEN_STDERR)));
    assert!(matches!(acts[1], Action::Close(TOKEN_STDERR)));
    assert!(reactor.stderr_scatterer.is_none());
}

#[test]
fn client_bytes_go_to_stdin_in_read_order() {
    let mut reactor = full_reactor();
    let (a, _) = reactor.register_attach_client();
    let acts = reactor.handle_attach_client_event(a, ClientEvent::Data(b"in-1".to_vec()));
    assert_eq!(acts.len(), 1);
    match &acts[0] {
        Action::WriteStdin(data) => assert_eq!(data, &b"in-1".to_vec()),
        other => panic!("expected a stdin write, got {:?}", other),
    }
    let acts = reactor.handle_attach_client_event(a, ClientEvent::Data(b"in-2".to_vec()));
    match &acts[0] {
        Action::WriteStdin(data) => assert_eq!(data, &b"in-2".to_vec()),
        other => panic!("expected a stdin write, got {:?}", other),
    }
}

#[test]
fn two_clients_interleave_at_chunk_granularity() {
    let mut reactor = full_reactor();
    let (a, _) = reactor.register_attach_client();
    let (b, _) = reactor.register_attach_client();
    let acts = reactor.handle_attach_client_event(a, ClientEvent::Data(b"aa".to_vec()));
    assert!(matches!(&acts[0], Action::WriteStdin(d) if d == &b"aa".to_vec()));
    let acts = reactor.handle_attach_client_event(b, ClientEvent::Data(b"bb".to_vec()));
    assert!(matches!(&acts[0], Action::WriteStdin(d) if d == &b"bb".to_vec()));
    let acts = reactor.handle_attach_client_event(a, ClientEvent::Data(b"cc".to_vec()));
    assert!(matches!(&acts[0], Action::WriteStdin(d) if d == &b"cc".to_vec()));
}

#[test]
fn stdin_once_drops_gatherer_when_first_client_leaves() {
    let (mut reactor, _) = Reactor::new(4242, true, true, true, true);
    let (a, _) = reactor.register_attach_client();
    let acts = reactor.handle_attach_client_event(a, ClientEvent::Eof);
    assert_eq!(acts.len(), 3);
    assert!(matches!(acts[0], Action::Deregister(t) if t == a));
    assert!(matches!(acts[1], Action::Close(t) if t == a));
    assert!(matches!(acts[2], Action::CloseStdin));
    assert!(reactor.stdin_gatherer.is_none());

    // A second client's writes are discarded: no stdin write comes back.
    let (b, _) = reactor.register_attach_client();
    let acts = reactor.handle_attach_client_event(b, ClientEvent::Data(b"late".to_vec()));
    assert!(acts.is_empty());
}

#[test]
fn without_stdin_once_other_clients_keep_writing() {
    let mut reactor = full_reactor();
    let (a, _) = reactor.register_attach_client();
    let (b, _) = reactor.register_attach_client();
    let acts = reactor.handle_attach_client_event(a, ClientEvent::Eof);
    assert_eq!(acts.len(), 2);
    assert!(reactor.stdin_gatherer.is_some());
    let acts = reactor.handle_attach_client_event(b, ClientEvent::Data(b"still".to_vec()));
    assert!(matches!(&acts[0], Action::WriteStdin(d) if d == &b"still".to_vec()));
}

#[test]
fn client_hup_removes_but_keeps_gatherer() {
    let (mut reactor, _) = Reactor::new(4242, true, true, true, true);
    let (a, _) = reactor.register_attach_client();
    let acts = reactor.handle_attach_client_event(a, ClientEvent::Hup);
    assert_eq!(acts.len(), 2);
    assert!(reactor.stdin_gatherer.is_some());
}

#[test]
fn stdin_sink_failure_removes_no_source() {
    let mut reactor = full_reactor();
    let (a, _) = reactor.register_attach_client();
    let acts = reactor.handle_attach_client_event(a, ClientEvent::Failed(Error::Sink(32)));
    assert!(acts.is_empty());
    let acts = reactor.handle_attach_client_event(a, ClientEvent::Data(b"more".to_vec()));
    assert_eq!(acts.len(), 1);
}

#[test]
fn termination_signal_is_forwarded_to_container() {
    let reactor = full_reactor();
    let acts = reactor.forward_termination_signal(15);
    assert_eq!(acts.len(), 1);
    assert!(matches!(acts[0], Action::Kill(4242, 15)));
}

#[test]
fn sigchld_for_container_records_status_once() {
    let mut reactor = full_reactor();
    assert!(reactor.serving());
    reactor.handle_sigchld(Some(TerminationStatus::Exited(9999, 0)));
    assert!(reactor.serving());
    reactor.handle_sigchld(None);
    assert!(reactor.serving());
    reactor.handle_sigchld(Some(TerminationStatus::Exited(4242, 3)));
    assert!(!reactor.serving());
    assert_eq!(reactor.container_status, Some(TerminationStatus::Exited(4242, 3)));
}

#[test]
fn drain_deregisters_signal_and_listener_and_zeroes_heartbeat() {
    let mut reactor = full_reactor();
    reactor.handle_sigchld(Some(TerminationStatus::Signaled(4242, 15)));
    let acts = reactor.begin_drain();
    assert_eq!(acts.len(), 2);
    assert!(matches!(acts[0], Action::Deregister(TOKEN_SIGNAL)));
    assert!(matches!(acts[1], Action::Deregister(TOKEN_ATTACH)));
    assert_eq!(reactor.heartbeat_ms, 0);

    // Streams are still drained after the container died.
    let acts = reactor.handle_stream_event(StreamKind::Stdout, StreamEvent::Data(b"tail".to_vec()));
    assert!(matches!(&acts[0], Action::WriteLog(StreamKind::Stdout, d) if d == &b"tail".to_vec()));
}

#[test]
fn finish_deregisters_everything_before_closing() {
    let mut reactor = full_reactor();
    let (a, _) = reactor.register_attach_client();
    reactor.handle_sigchld(Some(TerminationStatus::Exited(4242, 0)));
    let _ = reactor.begin_drain();
    let acts = reactor.finish();

    // The two streams, then the already-deregistered signal descriptor
    // and listener, then the client, then the container's stdin.
    assert_eq!(acts.len(), 9);
    assert!(matches!(acts[0], Action::Deregister(TOKEN_STDOUT)));
    assert!(matches!(acts[1], Action::Close(TOKEN_STDOUT)));
    assert!(matches!(acts[2], Action::Deregister(TOKEN_STDERR)));
    assert!(matches!(acts[3], Action::Close(TOKEN_STDERR)));
    assert!(matches!(acts[4], Action::Close(TOKEN_SIGNAL)));
    assert!(matches!(acts[5], Action::Close(TOKEN_ATTACH)));
    assert!(matches!(acts[6], Action::Deregister(t) if t == a));
    assert!(matches!(acts[7], Action::Close(t) if t == a));
    assert!(matches!(acts[8], Action::CloseStdin));

    // Every close of a token is preceded by a deregistration of it,
    // in this run counting the deregistrations issued while draining.
    let mut deregistered: Vec<u64> = vec![TOKEN_SIGNAL, TOKEN_ATTACH];
    for act in &acts {
        match act {
            Action::Deregister(t) => deregistered.push(*t),
            Action::Close(t) => assert!(deregistered.contains(t)),
            _ => {}
        }
    }
}

#[test]
fn tokens_stay_monotonic_across_removals() {
    let mut reactor = full_reactor();
    let (a, _) = reactor.register_attach_client();
    let _ = reactor.handle_attach_client_event(a, ClientEvent::Eof);
    let (b, _) = reactor.register_attach_client();
    assert!(b > a);
}

#[test]
fn token_dispatch_matches_the_fixed_tokens() {
    assert_eq!(classify_token(TOKEN_STDOUT), TokenClass::Stdout);
    assert_eq!(classify_token(TOKEN_STDERR), TokenClass::Stderr);
    assert_eq!(classify_token(TOKEN_SIGNAL), TokenClass::Signal);
    assert_eq!(classify_token(TOKEN_ATTACH), TokenClass::AttachListener);
    assert_eq!(classify_token(TOKEN_UNUSED + 1), TokenClass::AttachClient);
}
