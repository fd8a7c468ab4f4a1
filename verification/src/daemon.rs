//! Decisions of the backend daemon: how each request on a connection is
//! handled, and how evaluation outcomes and errors are reported.
use vstd::prelude::*;

use crate::error::SchemeError;
use crate::ipc::{answers, Request, Response};
use crate::text::{decimal, decimal_string};

verus! {

/// The text of an evaluation error, as the standalone REPL prints it.
pub open spec fn scheme_error_text(e: SchemeError) -> Seq<char> {
    match e {
        SchemeError::Runtime(msg) => "error: "@ + msg@,
        SchemeError::MaError(msg) => "ma error: "@ + msg@,
        SchemeError::Undefined(sym) => "undefined: "@ + sym@,
        SchemeError::Arity { name, expected, got } => name@ + ": expected "@ + decimal(
            expected as nat,
        ) + " args, got "@ + decimal(got as nat),
        SchemeError::ParseError(msg) => "parse error: "@ + msg@,
    }
}

/// Format a `SchemeError` the same way the standalone REPL does.
pub fn format_scheme_err(e: &SchemeError) -> (s: String)
    ensures
        s@ == scheme_error_text(*e),
{
    match e {
        SchemeError::Runtime(msg) => String::from_str("error: ").concat(msg.as_str()),
        SchemeError::MaError(msg) => String::from_str("ma error: ").concat(msg.as_str()),
        SchemeError::Undefined(sym) => String::from_str("undefined: ").concat(sym.as_str()),
        SchemeError::Arity { name, expected, got } => {
            let mut s = name.clone();
            s.append(": expected ");
            let e = decimal_string(*expected as u128);
            s.append(e.as_str());
            s.append(" args, got ");
            let g = decimal_string(*got as u128);
            s.append(g.as_str());
            s
        },
        SchemeError::ParseError(msg) => String::from_str("parse error: ").concat(msg.as_str()),
    }
}

/// What evaluating a submission produced: nil, or a value with its display
/// text.
#[derive(Debug, PartialEq, Eq)]
pub enum Evaluated {
    Nil,
    Shown(String),
}

/// The reported outcome of an evaluation.
pub open spec fn outcome_of(r: Result<Evaluated, SchemeError>) -> Result<Option<Seq<char>>, Seq<char>> {
    match r {
        Ok(Evaluated::Nil) => Ok(None),
        Ok(Evaluated::Shown(t)) => Ok(Some(t@)),
        Err(e) => Err(scheme_error_text(e)),
    }
}

/// The model of a reported outcome.
pub open spec fn outcome_text(r: Result<Option<String>, String>) -> Result<Option<Seq<char>>, Seq<char>> {
    match r {
        Ok(None) => Ok(None),
        Ok(Some(t)) => Ok(Some(t@)),
        Err(e) => Err(e@),
    }
}

/// The outcome reported for an evaluation: nothing for nil, the display text
/// of any other value, or the formatted error.
pub fn eval_outcome(r: Result<Evaluated, SchemeError>) -> (o: Result<Option<String>, String>)
    ensures
        outcome_text(o) == outcome_of(r),
{
    match r {
        Ok(Evaluated::Nil) => Ok(None),
        Ok(Evaluated::Shown(t)) => Ok(Some(t)),
        Err(e) => Err(format_scheme_err(&e)),
    }
}

/// What the daemon does with one request on a connection.
#[derive(Debug, PartialEq, Eq)]
pub enum Step {
    /// Send this response and go on reading requests.
    Reply(Response),
    /// Send this response, ask the daemon to shut down, and close the
    /// connection.
    StopServing(Response),
    /// Re-initialise the shared session environment, then send this response.
    ResetThenReply(Response),
    /// Dump the shared session environment and send it (see `env_dump_reply`).
    DumpEnv,
    /// Evaluate `source` (in the connection's own environment when
    /// `isolated`) and send the outcome (see `eval_reply`).
    Evaluate { id: u64, source: String, isolated: bool },
}

/// The daemon's handling of a request, together with whether a handshake
/// announced a client version other than the daemon's own (which the daemon
/// only logs).
#[derive(Debug, PartialEq, Eq)]
pub struct Handling {
    pub step: Step,
    pub version_mismatch: bool,
}

/// `h` is how the daemon with version `version` and identity `did` handles
/// `req`: a handshake is answered with the daemon's version and identity
/// (noting whether the client's version differs); `Ping` with `Pong`; `Stop`
/// by acknowledging and ending the connection; `Reset` by resetting the
/// environment and acknowledging; `DumpEnv` by dumping the environment; and
/// `Eval` by evaluating the request's source as asked.
pub open spec fn handles(req: Request, version: Seq<char>, did: Seq<char>, h: Handling) -> bool {
    match (req, h.step) {
        (Request::Hello { version: client }, Step::Reply(Response::HelloAck { version: v, did: d })) => {
            &&& v@ == version
            &&& d@ == did
            &&& h.version_mismatch == (client@ != version)
        },
        (Request::Ping, Step::Reply(Response::Pong)) => !h.version_mismatch,
        (Request::Stop, Step::StopServing(Response::Stopping)) => !h.version_mismatch,
        (Request::Reset, Step::ResetThenReply(Response::ResetDone)) => !h.version_mismatch,
        (Request::DumpEnv, Step::DumpEnv) => !h.version_mismatch,
        (Request::Eval { id, source, isolated }, Step::Evaluate { id: i, source: s, isolated: iso }) => {
            &&& i == id
            &&& s == source
            &&& iso == isolated
            &&& !h.version_mismatch
        },
        _ => false,
    }
}

/// An evaluation runs in the environment the request asks for: the step
/// carries the request's id, source and isolation flag unchanged, so a
/// request without `isolated` is evaluated in the shared session
/// environment, and an evaluation request is never refused for its version.
pub proof fn evaluation_keeps_the_requested_environment(
    id: u64,
    source: String,
    isolated: bool,
    version: Seq<char>,
    did: Seq<char>,
    h: Handling,
)
    requires
        handles(Request::Eval { id, source, isolated }, version, did, h),
    ensures
        h.step == (Step::Evaluate { id, source, isolated }),
        !h.version_mismatch,
{
}

/// Decide how to handle `req` for the daemon with version `version` and
/// identity `did`.
pub fn handle_request(req: Request, version: &str, did: &str) -> (h: Handling)
    ensures
        handles(req, version@, did@, h),
{
    match req {
        Request::Hello { version: client } => {
            let ours = String::from_str(version);
            let mismatch = !client.eq(&ours);
            Handling {
                step: Step::Reply(Response::HelloAck { version: ours, did: String::from_str(did) }),
                version_mismatch: mismatch,
            }
        },
        Request::Ping => Handling { step: Step::Reply(Response::Pong), version_mismatch: false },
        Request::Stop => Handling {
            step: Step::StopServing(Response::Stopping),
            version_mismatch: false,
        },
        Request::Reset => Handling {
            step: Step::ResetThenReply(Response::ResetDone),
            version_mismatch: false,
        },
        Request::DumpEnv => Handling { step: Step::DumpEnv, version_mismatch: false },
        Request::Eval { id, source, isolated } => Handling {
            step: Step::Evaluate { id, source, isolated },
            version_mismatch: false,
        },
    }
}

/// The reply carrying a dump of the session environment.
pub fn env_dump_reply(source: String) -> (r: Response)
    ensures
        r == (Response::EnvDump { source }),
{
    Response::EnvDump { source }
}

/// The reply carrying the outcome of evaluation request `id`.
pub fn eval_reply(id: u64, outcome: Result<Option<String>, String>) -> (r: Response)
    ensures
        r == (Response::EvalResult { id, outcome }),
{
    Response::EvalResult { id, outcome }
}

/// The `Display` event streaming output `text` of evaluation request `id`.
pub fn display_event(id: u64, text: String) -> (r: Response)
    ensures
        r == (Response::Display { id, text }),
{
    Response::Display { id, text }
}

/// Every request the daemon handles is answered: the response it sends for
/// `req` (directly, after a reset, after a dump, or after an evaluation with
/// any outcome) is the answer to `req`, and the `Display` events it streams
/// during an evaluation answer nothing.
pub proof fn every_request_is_answered(
    req: Request,
    version: Seq<char>,
    did: Seq<char>,
    h: Handling,
    dump: String,
    outcome: Result<Option<String>, String>,
    text: String,
)
    requires
        handles(req, version, did, h),
    ensures
        match h.step {
            Step::Reply(r) => answers(req, r),
            Step::StopServing(r) => answers(req, r),
            Step::ResetThenReply(r) => answers(req, r),
            Step::DumpEnv => answers(req, Response::EnvDump { source: dump }),
            Step::Evaluate { id, .. } => answers(req, Response::EvalResult { id, outcome }) && !answers(
                req,
                Response::Display { id, text },
            ),
        },
{
}

// ── Claiming the socket ────────────────────────────────────────────────────

/// How many times a starting daemon checks whether the daemon it asked to
/// stop has released the socket.
pub const RELEASE_POLLS: u32 = 50;

/// How long a starting daemon waits before each such check.
pub const RELEASE_POLL_DELAY_MS: u64 = 100;

/// What a starting daemon does next about its socket path.
#[derive(Debug, PartialEq, Eq)]
pub enum ClaimAction {
    /// The path is free: bind it.
    Bind,
    /// A daemon answers on the path: ask it to stop.
    AskToStop,
    /// Wait, then look at the path again.
    Wait { delay_ms: u64 },
    /// Nothing answers on the path: remove the stale socket, then bind.
    RemoveStale,
    /// The old daemon did not let go of the path.
    Refuse,
}

/// Whether the next step of claiming the socket depends on whether a daemon
/// answers on it: before asking, and once every wait is spent, where the
/// path is still there.
pub fn claim_needs_probe(asked: bool, waits: u32, exists: bool) -> (b: bool)
    ensures
        b == (exists && (!asked || waits >= 50)),
{
    exists && (!asked || waits >= RELEASE_POLLS)
}

/// The next step of claiming the socket path, given whether the running
/// daemon was asked to stop, how many waits followed, whether the path
/// exists, and whether a daemon answers on it (read only where
/// `claim_needs_probe` says so). After asking, the daemon waits at least
/// once and at most `RELEASE_POLLS` times for the path to go away.
pub fn claim_step(asked: bool, waits: u32, exists: bool, answers: bool) -> (a: ClaimAction)
    ensures
        !asked && !exists ==> a == ClaimAction::Bind,
        !asked && exists && answers ==> a == ClaimAction::AskToStop,
        !asked && exists && !answers ==> a == ClaimAction::RemoveStale,
        asked && waits == 0 ==> a == (ClaimAction::Wait { delay_ms: 100 }),
        asked && waits >= 1 && !exists ==> a == ClaimAction::Bind,
        asked && 1 <= waits < 50 && exists ==> a == (ClaimAction::Wait { delay_ms: 100 }),
        asked && waits >= 50 && exists && answers ==> a == ClaimAction::Refuse,
        asked && waits >= 50 && exists && !answers ==> a == ClaimAction::RemoveStale,
{
    if !asked {
        if !exists {
            ClaimAction::Bind
        } else if answers {
            ClaimAction::AskToStop
        } else {
            ClaimAction::RemoveStale
        }
    } else if waits == 0 {
        ClaimAction::Wait { delay_ms: RELEASE_POLL_DELAY_MS }
    } else if !exists {
        ClaimAction::Bind
    } else if waits < RELEASE_POLLS {
        ClaimAction::Wait { delay_ms: RELEASE_POLL_DELAY_MS }
    } else if answers {
        ClaimAction::Refuse
    } else {
        ClaimAction::RemoveStale
    }
}

} // verus!
