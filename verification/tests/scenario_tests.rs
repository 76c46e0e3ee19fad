//! End-to-end walks over the decision core: the happy path, a runtime
//! failure, and external termination through the shim.

use shimmy::json::{exit_file_content, message_abnormal_termination, message_container_pid};
use shimmy::logfmt::{format_log_records, StreamKind};
use shimmy::reactor::{Action, ClientEvent, Reactor, StreamEvent};
use shimmy::runtime::{await_on_reaped, AwaitState, AwaitStep};
use shimmy::status::TerminationStatus;

#[test]
fn happy_path() {
    // The runtime exits 0; the wait phase ends in a serving outcome.
    let step = await_on_reaped(
        AwaitState::initial(),
        Some(TerminationStatus::Exited(100, 0)),
        None,
    )
    .unwrap();
    let outcome = match step {
        AwaitStep::Done(outcome) => outcome,
        AwaitStep::Continue(_) => panic!("runtime status must end the wait"),
    };
    assert!(outcome.should_serve());

    // The container PID from the pidfile is reported to the manager.
    assert_eq!(
        message_container_pid(4242),
        b"{\"kind\":\"container_pid\",\"pid\":4242}".to_vec()
    );

    // The container greets on stdout: exactly one record of the shape
    // `<ts> stdout hello`.
    let (mut reactor, _) = Reactor::new(4242, false, false, true, true);
    let acts = reactor.handle_stream_event(StreamKind::Stdout, StreamEvent::Data(b"hello\n".to_vec()));
    let chunk = match &acts[0] {
        Action::WriteLog(StreamKind::Stdout, data) => data.clone(),
        other => panic!("expected a log write, got {:?}", other),
    };
    let recs = format_log_records(&b"T".to_vec(), StreamKind::Stdout, &chunk);
    assert_eq!(recs.len(), 1);
    assert_eq!(recs[0], b"T stdout hello\n".to_vec());

    // The container exits 0; the exit file says so.
    reactor.handle_sigchld(Some(TerminationStatus::Exited(4242, 0)));
    assert!(!reactor.serving());
    let _ = reactor.begin_drain();
    let content = exit_file_content(&b"T".to_vec(), &reactor.container_status.unwrap());
    assert_eq!(content, b"{\"at\":\"T\",\"reason\":\"exited\",\"exitCode\":0}".to_vec());
}

#[test]
fn runtime_failure() {
    // The runtime exits 1; the shim does not serve and reports the
    // outcome with the runtime's stderr bytes.
    let step = await_on_reaped(
        AwaitState::initial(),
        Some(TerminationStatus::Exited(100, 1)),
        None,
    )
    .unwrap();
    let outcome = match step {
        AwaitStep::Done(outcome) => outcome,
        AwaitStep::Continue(_) => panic!("runtime status must end the wait"),
    };
    assert!(!outcome.should_serve());
    let msg = outcome.abnormal_message(&b"boom".to_vec());
    assert_eq!(
        msg,
        b"{\"kind\":\"runtime_abnormal_termination\",\"status\":\"Runtime Exited with code 1.\",\"stderr\":\"boom\"}"
            .to_vec()
    );
    assert_eq!(message_abnormal_termination(&outcome.describe(), &b"boom".to_vec()), msg);
}

#[test]
fn signal_forwarding_ends_in_signaled_exit_file() {
    let (mut reactor, _) = Reactor::new(4242, false, false, true, true);
    let acts = reactor.forward_termination_signal(15);
    assert!(matches!(acts[0], Action::Kill(4242, 15)));

    // The container dies of the forwarded signal.
    reactor.handle_sigchld(Some(TerminationStatus::Signaled(4242, 15)));
    let content = exit_file_content(&b"T".to_vec(), &reactor.container_status.unwrap());
    assert_eq!(content, b"{\"at\":\"T\",\"reason\":\"signaled\",\"signal\":15}".to_vec());
}

#[test]
fn attach_multiplex_two_clients() {
    let (mut reactor, _) = Reactor::new(4242, true, false, true, true);
    let (a, _) = reactor.register_attach_client();
    let (b, _) = reactor.register_attach_client();
    let acts = reactor.handle_stream_event(StreamKind::Stdout, StreamEvent::Data(b"X".to_vec()));
    let mut client_payloads = Vec::new();
    for act in &acts {
        if let Action::WriteAttach(token, data) = act {
            client_payloads.push((*token, data.clone()));
        }
    }
    assert_eq!(client_payloads.len(), 2);
    assert_eq!(client_payloads[0], (a, vec![0x01, b'X']));
    assert_eq!(client_payloads[1], (b, vec![0x01, b'X']));
}

#[test]
fn reactor_without_stdin_discards_client_bytes() {
    let (mut reactor, _) = Reactor::new(4242, false, false, true, true);
    let (a, _) = reactor.register_attach_client();
    let acts = reactor.handle_attach_client_event(a, ClientEvent::Data(b"ignored".to_vec()));
    assert!(acts.is_empty());
}
