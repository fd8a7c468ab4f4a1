//! Signed inbox messages to actors and replies from them: sender DID URLs,
//! the signing key, message construction, and routing of replies. DID
//! parsing, signing and content framing are `ma_core`'s.
use vstd::prelude::*;

use crate::context::{decode_reply, outcome_model, reply_of};
use crate::value::{Val, ValModel};

verus! {

/// A `did:ma:` DID or DID URL by its parts.
#[derive(Debug, Clone, PartialEq, Eq)]
pub struct DidParts {
    pub ipns: String,
    pub fragment: Option<String>,
}

/// A signed inbox message, field for field.
#[derive(Debug, Clone, PartialEq, Eq)]
pub struct ActorMessage {
    pub id: String,
    pub protocol: String,
    pub message_type: String,
    pub from: String,
    pub to: String,
    pub created_at: u64,
    pub exp: u64,
    pub content_type: String,
    pub reply_to: Option<String>,
    pub content: Vec<u8>,
    pub signature: Vec<u8>,
}

/// The model of DID parts.
pub open spec fn parts_model(d: DidParts) -> (Seq<char>, Option<Seq<char>>) {
    (
        d.ipns@,
        match d.fragment {
            Some(f) => Some(f@),
            None => None,
        },
    )
}

/// The parts `ma_core::Did::try_from` reads from `s`, or the text of the
/// error it reports.
pub uninterp spec fn did_parsed(s: Seq<char>) -> Result<(Seq<char>, Option<Seq<char>>), Seq<char>>;

/// The DID URL `ma_core::Did::with_fragment` builds from a DID with
/// identifier `ipns` and the fragment `fragment`, or the text of the error
/// it reports.
pub uninterp spec fn did_with_fragment(ipns: Seq<char>, fragment: Seq<char>) -> Result<
    (Seq<char>, Option<Seq<char>>),
    Seq<char>,
>;

/// The codec and payload `ma_core::decode_content` reads from message
/// content, or `None` where it reports an error.
pub uninterp spec fn content_decoded(content: Seq<u8>) -> Option<(u64, Seq<u8>)>;

/// The model of a parse or build result.
pub open spec fn did_result_model(r: Result<DidParts, String>) -> Result<
    (Seq<char>, Option<Seq<char>>),
    Seq<char>,
> {
    match r {
        Ok(d) => Ok(parts_model(d)),
        Err(e) => Err(e@),
    }
}

/// `ma_core::Did::try_from`: the result is the named parse `did_parsed(s)`,
/// the error by its text.
#[verifier::external_body]
fn parse_did(s: &str) -> (r: Result<DidParts, String>)
    ensures
        did_result_model(r) == did_parsed(s@),
{
    ma_core::Did::try_from(s)
        .map(|d| DidParts { ipns: d.ipns, fragment: d.fragment })
        .map_err(|e| e.to_string())
}

/// `ma_core::Did::with_fragment`: the result is the named DID URL
/// `did_with_fragment(ipns, fragment)`. The source builds the URL from the
/// identifier alone and, where it succeeds, keeps the identifier and sets the
/// fragment; the contract states that too.
#[verifier::external_body]
fn with_fragment(did: DidParts, fragment: &str) -> (r: Result<DidParts, String>)
    ensures
        did_result_model(r) == did_with_fragment(did.ipns@, fragment@),
        r matches Ok(d) ==> {
            &&& d.ipns@ == did.ipns@
            &&& d.fragment matches Some(f) && f@ == fragment@
        },
{
    let did = ma_core::Did { ipns: did.ipns, fragment: did.fragment };
    did.with_fragment(fragment)
        .map(|d| DidParts { ipns: d.ipns, fragment: d.fragment })
        .map_err(|e| e.to_string())
}

/// The multicodec code `ma_core::Message::new` puts in front of content of
/// type `content_type`: dag-cbor, then CBOR (plain CBOR and ma terms), else
/// identity. Each code is below 0x80, so its unsigned varint is one byte.
pub open spec fn codec_for(content_type: Seq<char>) -> u8 {
    if content_type == "application/vnd.ipld.dag-cbor"@ {
        0x71
    } else if content_type == "application/cbor"@ || content_type == "application/vnd.ma.term"@ {
        0x51
    } else {
        0x00
    }
}

/// The fields of a message that its signature covers, in header order: id,
/// protocol, type, sender, recipient, creation time, expiry, content type,
/// correlation id, and the content (through its BLAKE3 hash).
pub open spec fn unsigned_headers(m: ActorMessage) -> (
    Seq<char>,
    Seq<char>,
    Seq<char>,
    Seq<char>,
    Seq<char>,
    u64,
    u64,
    Seq<char>,
    Option<Seq<char>>,
    Seq<u8>,
) {
    (
        m.id@,
        m.protocol@,
        m.message_type@,
        m.from@,
        m.to@,
        m.created_at,
        m.exp,
        m.content_type@,
        match m.reply_to {
            Some(r) => Some(r@),
            None => None,
        },
        m.content@,
    )
}

/// The signature `ma_core::Message::new` attaches: `ma_core::SigningKey::sign`
/// (Ed25519, deterministic) with the secret key `private_key` over the CBOR of
/// the unsigned headers `headers`.
pub uninterp spec fn header_signature(
    private_key: Seq<u8>,
    headers: (
        Seq<char>,
        Seq<char>,
        Seq<char>,
        Seq<char>,
        Seq<char>,
        u64,
        u64,
        Seq<char>,
        Option<Seq<char>>,
        Seq<u8>,
    ),
) -> Seq<u8>;

/// `ma_core::Message::new`, with the signing key of `signer` made from
/// `private_key` by `ma_core::SigningKey::from_private_key_bytes`. The
/// contract claims that a built message carries the given sender, recipient,
/// message type and content type, answers no earlier message, holds the
/// content behind its one-byte codec prefix (which decodes back to the codec
/// and the content where the content is not empty), and is signed with
/// `private_key` over its unsigned headers. Its id and times come from chance
/// and the clock and are left unsaid, as is when the call fails.
#[verifier::external_body]
fn sign_message(
    from: &str,
    to: &str,
    message_type: &str,
    content_type: &str,
    content: &[u8],
    signer: DidParts,
    private_key: [u8; 32],
) -> (r: Result<ActorMessage, String>)
    ensures
        r matches Ok(m) ==> {
            &&& m.from@ == from@
            &&& m.to@ == to@
            &&& m.message_type@ == message_type@
            &&& m.content_type@ == content_type@
            &&& m.reply_to is None
            &&& m.content@ == seq![codec_for(content_type@)] + content@
            &&& content@.len() > 0 ==> content_decoded(m.content@) == Some(
                (codec_for(content_type@) as u64, content@),
            )
            &&& m.signature@ == header_signature(private_key@, unsigned_headers(m))
        },
{
    let did = ma_core::Did { ipns: signer.ipns, fragment: signer.fragment };
    let key = ma_core::SigningKey::from_private_key_bytes(did, private_key)
        .map_err(|e| e.to_string())?;
    let m = ma_core::Message::new(from, to, message_type, content_type, content, &key)
        .map_err(|e| e.to_string())?;
    Ok(ActorMessage {
        id: m.id, protocol: m.protocol, message_type: m.message_type, from: m.from, to: m.to,
        created_at: m.created_at, exp: m.exp, content_type: m.content_type,
        reply_to: m.reply_to, content: m.content, signature: m.signature,
    })
}

/// `ma_core::decode_content`: the result is the named decoding
/// `content_decoded(content)`. The source also shows that a payload is never
/// empty, and that content whose first byte is below 0x80 (a one-byte varint)
/// decodes to that byte and the rest, where the rest is not empty.
#[verifier::external_body]
fn decode_content(content: &[u8]) -> (r: Option<(u64, Vec<u8>)>)
    ensures
        match r {
            Some((c, p)) => {
                &&& content_decoded(content@) == Some((c, p@))
                &&& p@.len() > 0
                &&& content@.len() > 0 && content@[0] < 0x80 ==> c == content@[0] && p@
                    == content@.drop_first()
            },
            None => {
                &&& content_decoded(content@) is None
                &&& content@.len() > 0 && content@[0] < 0x80 ==> content@.len() == 1
            },
        },
{
    ma_core::decode_content(content).ok()
}

// ── DID URLs ───────────────────────────────────────────────────────────────

/// The text of a DID or DID URL: `did:ma:<ipns>`, then `#<fragment>` if it
/// has one.
pub open spec fn did_text(parts: (Seq<char>, Option<Seq<char>>)) -> Seq<char> {
    match parts.1 {
        Some(f) => "did:ma:"@ + parts.0 + seq!['#'] + f,
        None => "did:ma:"@ + parts.0,
    }
}

/// The DID URL under which this host sends: its own DID with `fragment`.
pub open spec fn sender_url_of(our_did: Seq<char>, fragment: Seq<char>) -> Result<Seq<char>, Seq<char>> {
    match did_parsed(our_did) {
        Err(e) => Err(e),
        Ok(parts) => match did_with_fragment(parts.0, fragment) {
            Err(e) => Err(e),
            Ok(url) => Ok(did_text(url)),
        },
    }
}

/// The text of a DID by its parts (`ma_core::Did::id`).
pub fn did_id(d: &DidParts) -> (s: String)
    ensures
        s@ == did_text(parts_model(*d)),
{
    let mut s = String::from_str("did:ma:");
    s.append(d.ipns.as_str());
    match &d.fragment {
        Some(f) => {
            s.append("#");
            s.append(f.as_str());
            proof {
                reveal_strlit("#");
            }
        },
        None => {},
    }
    s
}

/// The DID URL of `our_did` with `fragment`.
pub fn sender_url(our_did: &str, fragment: &str) -> (r: Result<String, String>)
    ensures
        match (r, sender_url_of(our_did@, fragment@)) {
            (Ok(s), Ok(t)) => s@ == t,
            (Err(e), Err(t)) => e@ == t,
            _ => false,
        },
{
    let did = parse_did(our_did)?;
    let url = with_fragment(did, fragment)?;
    Ok(did_id(&url))
}

// ── Messages ───────────────────────────────────────────────────────────────

/// Why a message cannot be built, in the order the steps are taken: the
/// recipient is not a DID URL; the sender URL cannot be formed; the signing
/// key or the message cannot be made.
pub open spec fn message_refusal(our_did: Seq<char>, to: Seq<char>) -> Option<Seq<char>> {
    match did_parsed(to) {
        Err(e) => Some(e),
        Ok(_) => match sender_url_of(our_did, "inbox"@) {
            Err(e) => Some(e),
            Ok(_) => None,
        },
    }
}

/// A message from this host (DID `our_did`, private signing key
/// `private_key`) to the DID URL `to`, sent from its `inbox` URL, carrying
/// `content` behind the codec prefix of `content_type`, and signed with
/// `private_key`.
pub fn build_message(
    our_did: &str,
    private_key: [u8; 32],
    to: &str,
    message_type: &str,
    content_type: &str,
    content: &[u8],
) -> (r: Result<ActorMessage, String>)
    ensures
        message_refusal(our_did@, to@) matches Some(e) ==> (r matches Err(x) && x@ == e),
        r matches Ok(m) ==> {
            &&& sender_url_of(our_did@, "inbox"@) == Ok::<Seq<char>, Seq<char>>(m.from@)
            &&& m.to@ == to@
            &&& m.message_type@ == message_type@
            &&& m.content_type@ == content_type@
            &&& m.reply_to is None
            &&& m.content@ == seq![codec_for(content_type@)] + content@
            &&& content@.len() > 0 ==> content_decoded(m.content@) == Some(
                (codec_for(content_type@) as u64, content@),
            )
            &&& content@.len() > 0 ==> payload_of(m.content@) == content@
            &&& m.signature@ == header_signature(private_key@, unsigned_headers(m))
        },
{
    if let Err(e) = parse_did(to) {
        return Err(e);
    }
    let inbox = "inbox";
    proof {
        reveal_strlit("inbox");
    }
    let sender = sender_url(our_did, inbox)?;
    let signing_did = parse_did(sender.as_str())?;
    sign_message(sender.as_str(), to, message_type, content_type, content, signing_did, private_key)
}

// ── Replies ────────────────────────────────────────────────────────────────

/// The payload of message content: the content without its codec prefix, or
/// the content as it is where it has none.
pub open spec fn payload_of(content: Seq<u8>) -> Seq<u8> {
    match content_decoded(content) {
        Some((_, p)) => p,
        None => content,
    }
}

/// The payload of message content (`ma_core::Message::payload`).
pub fn message_payload(content: &[u8]) -> (p: Vec<u8>)
    ensures
        p@ == payload_of(content@),
{
    match decode_content(content) {
        Some((_, p)) => p,
        None => crate::value::copy_bytes_slice(content),
    }
}

/// The model of a routed reply.
pub open spec fn route_model(r: Option<(String, Result<Val, String>)>) -> Option<
    (Seq<char>, Result<ValModel, Seq<char>>),
> {
    match r {
        Some((id, o)) => Some((id@, outcome_model(o))),
        None => None,
    }
}

/// Where an incoming message goes: a message that replies to an earlier one
/// delivers the meaning of its payload to the call awaiting that message;
/// any other message is dropped.
pub fn route_reply(message: &ActorMessage) -> (r: Option<(String, Result<Val, String>)>)
    ensures
        route_model(r) == match message.reply_to {
            Some(id) => Some((id@, reply_of(payload_of(message.content@)))),
            None => None,
        },
{
    match &message.reply_to {
        None => None,
        Some(id) => {
            let payload = message_payload(message.content.as_slice());
            Some((id.clone(), decode_reply(payload.as_slice())))
        },
    }
}

} // verus!
