use zscheme::daemon::{claim_needs_probe, claim_step, ClaimAction};
use zscheme::daemon::{
    display_event, env_dump_reply, eval_outcome, eval_reply, format_scheme_err, handle_request,
    Evaluated, Step,
};
use zscheme::error::SchemeError;
use zscheme::ipc::{is_answer, Request, Response};

#[test]
fn formats_every_error_kind() {
    assert_eq!(format_scheme_err(&SchemeError::Runtime("boom".into())), "error: boom");
    assert_eq!(format_scheme_err(&SchemeError::MaError("offline".into())), "ma error: offline");
    assert_eq!(format_scheme_err(&SchemeError::Undefined("foo".into())), "undefined: foo");
    assert_eq!(
        format_scheme_err(&SchemeError::Arity { name: "car".into(), expected: 1, got: 12 }),
        "car: expected 1 args, got 12"
    );
    assert_eq!(
        format_scheme_err(&SchemeError::Arity { name: "f".into(), expected: 0, got: usize::MAX }),
        format!("f: expected 0 args, got {}", usize::MAX)
    );
    assert_eq!(format_scheme_err(&SchemeError::ParseError("eof".into())), "parse error: eof");
}

#[test]
fn evaluation_outcomes() {
    assert_eq!(eval_outcome(Ok(Evaluated::Nil)), Ok(None));
    assert_eq!(eval_outcome(Ok(Evaluated::Shown("3".into()))), Ok(Some("3".to_string())));
    assert_eq!(
        eval_outcome(Err(SchemeError::Undefined("x".into()))),
        Err("undefined: x".to_string())
    );
}

#[test]
fn handshake_is_answered_with_version_and_did() {
    let h = handle_request(Request::Hello { version: "0.9".into() }, "1.0", "did:ma:me");
    assert!(h.version_mismatch);
    assert_eq!(
        h.step,
        Step::Reply(Response::HelloAck { version: "1.0".into(), did: "did:ma:me".into() })
    );
    let h = handle_request(Request::Hello { version: "1.0".into() }, "1.0", "did:ma:me");
    assert!(!h.version_mismatch);
}

#[test]
fn every_request_kind_is_handled() {
    assert_eq!(handle_request(Request::Ping, "1", "d").step, Step::Reply(Response::Pong));
    assert_eq!(handle_request(Request::Stop, "1", "d").step, Step::StopServing(Response::Stopping));
    assert_eq!(
        handle_request(Request::Reset, "1", "d").step,
        Step::ResetThenReply(Response::ResetDone)
    );
    assert_eq!(handle_request(Request::DumpEnv, "1", "d").step, Step::DumpEnv);
    let h = handle_request(
        Request::Eval { id: 9, source: "(+ 1 2)".into(), isolated: true },
        "1",
        "d",
    );
    assert_eq!(h.step, Step::Evaluate { id: 9, source: "(+ 1 2)".into(), isolated: true });
}

#[test]
fn replies_answer_their_requests() {
    let eval = Request::Eval { id: 3, source: String::new(), isolated: false };
    assert!(is_answer(&eval, &eval_reply(3, Err("error: x".into()))));
    assert!(!is_answer(&eval, &display_event(3, "out".into())));
    assert!(is_answer(&Request::DumpEnv, &env_dump_reply("(define x 1)".into())));
    assert_eq!(
        display_event(3, "out".into()),
        Response::Display { id: 3, text: "out".into() }
    );
}

#[test]
fn the_socket_is_claimed_step_by_step() {
    assert_eq!(claim_step(false, 0, false, false), ClaimAction::Bind);
    assert_eq!(claim_step(false, 0, true, true), ClaimAction::AskToStop);
    assert_eq!(claim_step(false, 0, true, false), ClaimAction::RemoveStale);
    assert_eq!(claim_step(true, 0, false, false), ClaimAction::Wait { delay_ms: 100 });
    assert_eq!(claim_step(true, 3, true, false), ClaimAction::Wait { delay_ms: 100 });
    assert_eq!(claim_step(true, 3, false, false), ClaimAction::Bind);
    assert_eq!(claim_step(true, 50, true, true), ClaimAction::Refuse);
    assert_eq!(claim_step(true, 50, true, false), ClaimAction::RemoveStale);
    assert!(claim_needs_probe(false, 0, true));
    assert!(!claim_needs_probe(false, 0, false));
    assert!(!claim_needs_probe(true, 10, true));
    assert!(claim_needs_probe(true, 50, true));
}
