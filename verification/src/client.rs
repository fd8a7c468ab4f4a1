//! Decisions of the frontend client: the version handshake, numbering of
//! evaluation requests, and which daemon responses belong to the evaluation
//! in progress.
use vstd::prelude::*;

use crate::daemon::{handles, Handling, Step};
use crate::ipc::{Request, Response};
use crate::text::chars_of;

verus! {

/// Why the version handshake failed.
#[derive(Debug, PartialEq, Eq)]
pub enum HandshakeError {
    /// The daemon runs another version.
    VersionMismatch { daemon: String },
    /// The daemon replied with something other than a handshake reply.
    Unexpected(Response),
}

/// Check the daemon's reply to `Hello` for the client with version
/// `version`: it must be a handshake reply naming the same version.
pub fn check_handshake(reply: Response, version: &str) -> (r: Result<(), HandshakeError>)
    ensures
        match reply {
            Response::HelloAck { version: v, .. } => if v@ == version@ {
                r is Ok
            } else {
                r matches Err(HandshakeError::VersionMismatch { daemon }) && daemon == v
            },
            _ => r matches Err(HandshakeError::Unexpected(x)) && x == reply,
        },
{
    match reply {
        Response::HelloAck { version: v, did } => {
            let ours = String::from_str(version);
            if v.eq(&ours) {
                Ok(())
            } else {
                Err(HandshakeError::VersionMismatch { daemon: v })
            }
        },
        other => Err(HandshakeError::Unexpected(other)),
    }
}

impl HandshakeError {
    /// The message reported for a version mismatch, given the client's
    /// version; `None` for an unexpected reply, which is reported with the
    /// reply's debug rendering.
    pub fn mismatch_message(&self, client: &str) -> (m: Option<String>)
        ensures
            match self {
                HandshakeError::VersionMismatch { daemon } => m matches Some(s) && s@ == "daemon version "@
                    + daemon@ + " does not match client "@ + client@
                    + " — run `zscheme --stop` and try again"@,
                HandshakeError::Unexpected(_) => m is None,
            },
    {
        match self {
            HandshakeError::VersionMismatch { daemon } => {
                let mut s = String::from_str("daemon version ");
                s.append(daemon.as_str());
                s.append(" does not match client ");
                s.append(client);
                s.append(" — run `zscheme --stop` and try again");
                Some(s)
            },
            HandshakeError::Unexpected(_) => None,
        }
    }
}

/// The client side of a daemon connection, apart from the socket.
pub struct ClientSession {
    next_id: u64,
    isolated: bool,
    dangling_output: bool,
}

/// What a response means for the evaluation in progress.
#[derive(Debug, PartialEq, Eq)]
pub enum EvalEvent {
    /// Output of the evaluation, to print as it arrives.
    Output(String),
    /// The evaluation finished with this outcome.
    Finished(Result<Option<String>, String>),
    /// The response belongs to no evaluation in progress.
    Ignored,
}

/// What `resp` means for evaluation request `id`: output and the final
/// outcome of that request; anything else is skipped.
pub open spec fn eval_event(id: u64, resp: Response) -> EvalEvent {
    match resp {
        Response::Display { id: rid, text } => if rid == id {
            EvalEvent::Output(text)
        } else {
            EvalEvent::Ignored
        },
        Response::EvalResult { id: rid, outcome } => if rid == id {
            EvalEvent::Finished(outcome)
        } else {
            EvalEvent::Ignored
        },
        _ => EvalEvent::Ignored,
    }
}

/// Whether `t` is non-empty and does not end with a newline.
pub open spec fn leaves_line_open(t: Seq<char>) -> bool {
    t.len() > 0 && t.last() != '\n'
}

impl ClientSession {
    /// The id the next evaluation request will carry.
    pub closed spec fn next_id_spec(&self) -> u64 {
        self.next_id
    }

    /// Whether evaluations ask for a per-connection environment.
    pub closed spec fn isolated_spec(&self) -> bool {
        self.isolated
    }

    /// Whether the last evaluation printed output that did not end with a
    /// newline.
    pub closed spec fn dangling_spec(&self) -> bool {
        self.dangling_output
    }

    /// A fresh session: the first request carries id 1.
    pub fn new(isolated: bool) -> (s: Self)
        ensures
            s.next_id_spec() == 1,
            s.isolated_spec() == isolated,
            !s.dangling_spec(),
    {
        ClientSession { next_id: 1, isolated, dangling_output: false }
    }

    /// The id the next evaluation request will carry.
    pub fn next_id(&self) -> (id: u64)
        ensures
            id == self.next_id_spec(),
    {
        self.next_id
    }

    /// Start evaluating `source`: the request to send. Each request carries
    /// a fresh id, one more than the previous one.
    pub fn begin_eval(&mut self, source: String) -> (req: Request)
        requires
            old(self).next_id_spec() < u64::MAX,
        ensures
            req == (Request::Eval {
                id: old(self).next_id_spec(),
                source,
                isolated: old(self).isolated_spec(),
            }),
            final(self).next_id_spec() == old(self).next_id_spec() + 1,
            final(self).isolated_spec() == old(self).isolated_spec(),
            !final(self).dangling_spec(),
    {
        let id = self.next_id;
        self.next_id = self.next_id + 1;
        self.dangling_output = false;
        Request::Eval { id, source, isolated: self.isolated }
    }

    /// What `resp` means for evaluation request `id`: its output, its final
    /// outcome, or nothing (responses for other requests are skipped).
    /// Non-empty output records whether it left the line open.
    pub fn on_response(&mut self, id: u64, resp: Response) -> (e: EvalEvent)
        ensures
            final(self).next_id_spec() == old(self).next_id_spec(),
            final(self).isolated_spec() == old(self).isolated_spec(),
            e == eval_event(id, resp),
            final(self).dangling_spec() == match resp {
                Response::Display { id: rid, text } => if rid == id && text@.len() > 0 {
                    leaves_line_open(text@)
                } else {
                    old(self).dangling_spec()
                },
                _ => old(self).dangling_spec(),
            },
    {
        match resp {
            Response::Display { id: rid, text } => {
                if rid == id {
                    let v = chars_of(text.as_str());
                    if v.len() > 0 {
                        self.dangling_output = v[v.len() - 1] != '\n';
                    }
                    EvalEvent::Output(text)
                } else {
                    EvalEvent::Ignored
                }
            },
            Response::EvalResult { id: rid, outcome } => {
                if rid == id {
                    EvalEvent::Finished(outcome)
                } else {
                    EvalEvent::Ignored
                }
            },
            _ => EvalEvent::Ignored,
        }
    }

    /// Whether a newline must be printed to close output left open by the
    /// last evaluation; the flag is cleared.
    pub fn take_dangling(&mut self) -> (b: bool)
        ensures
            b == old(self).dangling_spec(),
            !final(self).dangling_spec(),
            final(self).next_id_spec() == old(self).next_id_spec(),
            final(self).isolated_spec() == old(self).isolated_spec(),
    {
        let b = self.dangling_output;
        self.dangling_output = false;
        b
    }
}


/// An evaluation's outcome reaches the client that asked for it: the daemon
/// evaluates an `Eval` request under the request's own id, the result it
/// sends for that id finishes the client's evaluation with that outcome, the
/// output it streams for that id is shown, and results for other ids are
/// skipped.
pub proof fn outcome_reaches_its_client(
    id: u64,
    source: String,
    isolated: bool,
    version: Seq<char>,
    did: Seq<char>,
    h: Handling,
    outcome: Result<Option<String>, String>,
    text: String,
    other: u64,
)
    requires
        handles(Request::Eval { id, source, isolated }, version, did, h),
        other != id,
    ensures
        h.step matches Step::Evaluate { id: i, .. } && i == id,
        eval_event(id, Response::EvalResult { id, outcome }) == EvalEvent::Finished(outcome),
        eval_event(id, Response::Display { id, text }) == EvalEvent::Output(text),
        eval_event(id, Response::EvalResult { id: other, outcome }) == EvalEvent::Ignored,
        eval_event(id, Response::Display { id: other, text }) == EvalEvent::Ignored,
{
}

// ── Reaching the daemon ────────────────────────────────────────────────────

/// How many times the client tries again after spawning the daemon.
pub const SPAWN_RETRIES: u32 = 40;

/// How long the client waits before each try after spawning the daemon.
pub const SPAWN_RETRY_DELAY_MS: u64 = 250;

/// What the client does after an attempt to connect to the daemon's socket.
#[derive(Debug, PartialEq, Eq)]
pub enum ConnectAction {
    /// Connected: go on to the version handshake.
    Handshake,
    /// The first attempt failed: start a daemon, wait, and try again.
    SpawnAndRetry { delay_ms: u64 },
    /// A try after the spawn failed: wait and try again.
    Retry { delay_ms: u64 },
    /// Every try failed: the daemon did not start.
    GiveUp,
}

/// The next step of reaching the daemon, after `failed_attempts` attempts
/// that failed and an attempt that connected or not: the daemon is spawned
/// once, after the first failure, and tried `SPAWN_RETRIES` more times,
/// `SPAWN_RETRY_DELAY_MS` apart, before the client gives up.
pub fn next_connect_action(failed_attempts: u32, connected: bool) -> (a: ConnectAction)
    requires
        connected || failed_attempts >= 1,
    ensures
        connected ==> a == ConnectAction::Handshake,
        !connected && failed_attempts == 1 ==> a == (ConnectAction::SpawnAndRetry {
            delay_ms: 250,
        }),
        !connected && 2 <= failed_attempts <= 40 ==> a == (ConnectAction::Retry {
            delay_ms: 250,
        }),
        !connected && failed_attempts > 40 ==> a == ConnectAction::GiveUp,
{
    if connected {
        ConnectAction::Handshake
    } else if failed_attempts == 1 {
        ConnectAction::SpawnAndRetry { delay_ms: SPAWN_RETRY_DELAY_MS }
    } else if failed_attempts <= SPAWN_RETRIES {
        ConnectAction::Retry { delay_ms: SPAWN_RETRY_DELAY_MS }
    } else {
        ConnectAction::GiveUp
    }
}

} // verus!
