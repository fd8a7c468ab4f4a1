use zscheme::client::{next_connect_action, ConnectAction};
use zscheme::client::{check_handshake, ClientSession, EvalEvent, HandshakeError};
use zscheme::daemon::{eval_reply, handle_request, Step};
use zscheme::ipc::{Request, Response};

#[test]
fn handshake_accepts_only_the_same_version() {
    let ok = Response::HelloAck { version: "1.2.3".into(), did: "did:ma:x".into() };
    assert_eq!(check_handshake(ok, "1.2.3"), Ok(()));
    let other = Response::HelloAck { version: "1.2.4".into(), did: "did:ma:x".into() };
    let err = check_handshake(other, "1.2.3").unwrap_err();
    assert_eq!(err, HandshakeError::VersionMismatch { daemon: "1.2.4".into() });
    assert_eq!(
        err.mismatch_message("1.2.3").unwrap(),
        "daemon version 1.2.4 does not match client 1.2.3 — run `zscheme --stop` and try again"
    );
    let err = check_handshake(Response::Pong, "1.2.3").unwrap_err();
    assert_eq!(err, HandshakeError::Unexpected(Response::Pong));
    assert_eq!(err.mismatch_message("1.2.3"), None);
}

#[test]
fn each_evaluation_gets_a_fresh_id() {
    let mut s = ClientSession::new(true);
    assert_eq!(s.next_id(), 1);
    let r1 = s.begin_eval("(a)".into());
    let r2 = s.begin_eval("(b)".into());
    assert_eq!(r1, Request::Eval { id: 1, source: "(a)".into(), isolated: true });
    assert_eq!(r2, Request::Eval { id: 2, source: "(b)".into(), isolated: true });
    assert_eq!(s.next_id(), 3);
}

#[test]
fn responses_for_other_requests_are_skipped() {
    let mut s = ClientSession::new(false);
    let _ = s.begin_eval("(x)".into());
    assert_eq!(s.on_response(1, Response::Display { id: 2, text: "no".into() }), EvalEvent::Ignored);
    assert_eq!(s.on_response(1, Response::Pong), EvalEvent::Ignored);
    assert_eq!(
        s.on_response(1, Response::EvalResult { id: 7, outcome: Ok(None) }),
        EvalEvent::Ignored
    );
    assert_eq!(
        s.on_response(1, Response::Display { id: 1, text: "hi".into() }),
        EvalEvent::Output("hi".into())
    );
    assert_eq!(
        s.on_response(1, Response::EvalResult { id: 1, outcome: Ok(Some("3".into())) }),
        EvalEvent::Finished(Ok(Some("3".into())))
    );
}

#[test]
fn open_output_lines_are_closed_once() {
    let mut s = ClientSession::new(false);
    let _ = s.begin_eval("(display 1)".into());
    let _ = s.on_response(1, Response::Display { id: 1, text: "1".into() });
    let _ = s.on_response(1, Response::Display { id: 1, text: "".into() });
    assert!(s.take_dangling());
    assert!(!s.take_dangling());
    let _ = s.begin_eval("(newline)".into());
    let _ = s.on_response(2, Response::Display { id: 2, text: "x\n".into() });
    assert!(!s.take_dangling());
}

#[test]
fn the_daemons_result_finishes_the_clients_evaluation() {
    let mut s = ClientSession::new(false);
    let req = s.begin_eval("(+ 1 2)".into());
    let h = handle_request(req, "1", "did:ma:d");
    let Step::Evaluate { id, .. } = h.step else { panic!("expected an evaluation") };
    assert_eq!(id, 1);
    assert_eq!(
        s.on_response(1, eval_reply(id, Ok(Some("3".into())))),
        EvalEvent::Finished(Ok(Some("3".into())))
    );
}

#[test]
fn the_daemon_is_spawned_once_then_retried() {
    assert_eq!(next_connect_action(0, true), ConnectAction::Handshake);
    assert_eq!(next_connect_action(7, true), ConnectAction::Handshake);
    assert_eq!(next_connect_action(1, false), ConnectAction::SpawnAndRetry { delay_ms: 250 });
    assert_eq!(next_connect_action(2, false), ConnectAction::Retry { delay_ms: 250 });
    assert_eq!(next_connect_action(40, false), ConnectAction::Retry { delay_ms: 250 });
    assert_eq!(next_connect_action(41, false), ConnectAction::GiveUp);
}
