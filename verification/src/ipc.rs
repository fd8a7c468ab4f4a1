//! IPC protocol between the zscheme frontend and the backend daemon.
//!
//! Wire format: each frame is a big-endian `u32` length prefix followed by
//! the CBOR encoding of a `Request` or `Response`. This module holds the
//! messages, the framing of payload bytes, and which response answers which
//! request.
use vstd::prelude::*;

verus! {

/// Maximum accepted frame size (16 MiB) — guards against corrupt prefixes.
pub const MAX_FRAME_LEN: u32 = 16 * 1024 * 1024;

/// Frontend → daemon.
#[derive(Debug, PartialEq, Eq)]
pub enum Request {
    /// Version handshake; must be the first request on a connection.
    Hello { version: String },
    /// Evaluate Scheme source. `isolated` requests a per-connection
    /// environment instead of the shared session environment.
    Eval { id: u64, source: String, isolated: bool },
    /// Liveness check.
    Ping,
    /// Ask the daemon to shut down gracefully.
    Stop,
    /// Re-initialise the shared session environment (all defines dropped).
    Reset,
    /// Serialise the shared session environment to Scheme source.
    DumpEnv,
}

/// Daemon → frontend.
#[derive(Debug, PartialEq, Eq)]
pub enum Response {
    /// Handshake reply.
    HelloAck { version: String, did: String },
    /// `(display …)` output produced while evaluating request `id`.
    Display { id: u64, text: String },
    /// Final outcome of request `id`. `Ok(None)` means the result was nil
    /// (nothing to print); `Err` carries a pre-formatted error message.
    EvalResult { id: u64, outcome: Result<Option<String>, String> },
    /// Reply to `Ping`.
    Pong,
    /// Acknowledgement of `Stop`; the daemon exits after sending this.
    Stopping,
    /// Acknowledgement of `Reset`.
    ResetDone,
    /// Reply to `DumpEnv`: the session environment as Scheme source.
    EnvDump { source: String },
}

/// `resp` is the daemon's answer to `req`: a handshake reply to `Hello`,
/// `Pong` to `Ping`, `Stopping` to `Stop`, `ResetDone` to `Reset`, an
/// environment dump to `DumpEnv`, and the result with the same id to `Eval`.
/// (`Display` events stream before the answer to an `Eval`; they answer
/// nothing.)
pub open spec fn answers(req: Request, resp: Response) -> bool {
    match (req, resp) {
        (Request::Hello { .. }, Response::HelloAck { .. }) => true,
        (Request::Ping, Response::Pong) => true,
        (Request::Stop, Response::Stopping) => true,
        (Request::Reset, Response::ResetDone) => true,
        (Request::DumpEnv, Response::EnvDump { .. }) => true,
        (Request::Eval { id, .. }, Response::EvalResult { id: rid, .. }) => id == rid,
        _ => false,
    }
}

/// Whether `resp` answers `req` (see `answers`).
pub fn is_answer(req: &Request, resp: &Response) -> (b: bool)
    ensures
        b == answers(*req, *resp),
{
    match (req, resp) {
        (Request::Hello { .. }, Response::HelloAck { .. }) => true,
        (Request::Ping, Response::Pong) => true,
        (Request::Stop, Response::Stopping) => true,
        (Request::Reset, Response::ResetDone) => true,
        (Request::DumpEnv, Response::EnvDump { .. }) => true,
        (Request::Eval { id, .. }, Response::EvalResult { id: rid, .. }) => *id == *rid,
        _ => false,
    }
}

// ── Framing ────────────────────────────────────────────────────────────────

/// Why a frame cannot be written or read.
#[derive(Debug, PartialEq, Eq)]
pub enum FrameError {
    /// The payload does not fit a `u32` length prefix (writing).
    PayloadTooLarge { size: usize },
    /// The length prefix exceeds `MAX_FRAME_LEN` (reading).
    FrameTooLarge { len: u32 },
}

/// The big-endian bytes of `n`.
pub open spec fn be_bytes(n: u32) -> Seq<u8> {
    seq![
        (n / 0x1000000) as u8,
        ((n / 0x10000) % 0x100) as u8,
        ((n / 0x100) % 0x100) as u8,
        (n % 0x100) as u8,
    ]
}

/// The number whose big-endian bytes are `b`.
pub open spec fn be_value(b: Seq<u8>) -> int {
    b[0] * 0x1000000 + b[1] * 0x10000 + b[2] * 0x100 + b[3]
}

/// The frame carrying `payload`: its length as four big-endian bytes, then
/// the payload.
pub open spec fn framed(payload: Seq<u8>) -> Seq<u8> {
    be_bytes(payload.len() as u32) + payload
}

/// Frame `payload` for the wire. Fails only when the payload is too long for
/// a `u32` length prefix.
pub fn encode_frame(payload: &[u8]) -> (r: Result<Vec<u8>, FrameError>)
    ensures
        payload@.len() <= u32::MAX ==> (r matches Ok(f) && f@ == framed(payload@)),
        payload@.len() > u32::MAX ==> (r matches Err(FrameError::PayloadTooLarge { size })
            && size == payload@.len()),
{
    let n = payload.len();
    if n > 0xffff_ffffusize {
        return Err(FrameError::PayloadTooLarge { size: n });
    }
    let len = n as u32;
    let mut out: Vec<u8> = Vec::new();
    out.push((len / 0x1000000) as u8);
    out.push(((len / 0x10000) % 0x100) as u8);
    out.push(((len / 0x100) % 0x100) as u8);
    out.push((len % 0x100) as u8);
    let mut i: usize = 0;
    while i < n
        invariant
            n == payload@.len(),
            i <= n,
            out@ == be_bytes(len) + payload@.take(i as int),
        decreases n - i,
    {
        out.push(payload[i]);
        i = i + 1;
        assert(out@ =~= be_bytes(len) + payload@.take(i as int));
    }
    assert(payload@.take(n as int) =~= payload@);
    Ok(out)
}

/// The payload length announced by a frame header, or the refusal of a
/// length above `MAX_FRAME_LEN`.
pub fn frame_len(header: [u8; 4]) -> (r: Result<u32, FrameError>)
    ensures
        be_value(header@) <= MAX_FRAME_LEN ==> (r matches Ok(n) && n == be_value(header@)),
        be_value(header@) > MAX_FRAME_LEN ==> (r matches Err(FrameError::FrameTooLarge { len })
            && len == be_value(header@)),
{
    let b0 = header[0] as u32;
    let b1 = header[1] as u32;
    let b2 = header[2] as u32;
    let b3 = header[3] as u32;
    let len = b0 * 0x1000000 + b1 * 0x10000 + b2 * 0x100 + b3;
    if len > MAX_FRAME_LEN {
        Err(FrameError::FrameTooLarge { len })
    } else {
        Ok(len)
    }
}

impl FrameError {
    /// The error message the front end reports.
    pub fn message(&self) -> (s: String)
        ensures
            match self {
                FrameError::PayloadTooLarge { .. } => s@ == "frame too large"@,
                FrameError::FrameTooLarge { len } => s@ == "IPC frame too large: "@
                    + crate::text::decimal(*len as nat) + " bytes"@,
            },
    {
        match self {
            FrameError::PayloadTooLarge { .. } => String::from_str("frame too large"),
            FrameError::FrameTooLarge { len } => {
                let mut s = String::from_str("IPC frame too large: ");
                let digits = crate::text::decimal_string(*len as u128);
                s.append(digits.as_str());
                s.append(" bytes");
                s
            },
        }
    }
}

proof fn lemma_be_round_trip(n: u32)
    ensures
        be_value(be_bytes(n)) == n,
{
    let b = be_bytes(n);
    assert(b[0] == n / 0x1000000);
    assert(b[1] == (n / 0x10000) % 0x100);
    assert(b[2] == (n / 0x100) % 0x100);
    assert(b[3] == n % 0x100);
    assert((n / 0x1000000) * 0x1000000 + ((n / 0x10000) % 0x100) * 0x10000 + ((n / 0x100)
        % 0x100) * 0x100 + n % 0x100 == n) by (nonlinear_arith);
}

/// Reading back a frame gives the payload that was framed: the header
/// announces the payload's length, which a reader accepts whenever the
/// payload is at most `MAX_FRAME_LEN` bytes, and the bytes after the header
/// are the payload.
pub proof fn frames_round_trip(payload: Seq<u8>)
    requires
        payload.len() <= MAX_FRAME_LEN,
    ensures
        framed(payload).len() == 4 + payload.len(),
        be_value(framed(payload).take(4)) == payload.len(),
        framed(payload).skip(4) == payload,
{
    lemma_be_round_trip(payload.len() as u32);
    assert(framed(payload).take(4) =~= be_bytes(payload.len() as u32));
    assert(framed(payload).skip(4) =~= payload);
}

} // verus!
