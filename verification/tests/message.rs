use zscheme::message::{build_message, did_id, message_payload, route_reply, sender_url, DidParts};
use zscheme::value::Val;

const OUR: &str = "did:ma:k51qzi5uqu5dj9807pbuod1pplf0vxh8m4lfy3ewl9qbm2s8dsf9ugdf9gedhr";

fn cbor_bytes(value: &ciborium::Value) -> Vec<u8> {
    let mut bytes = Vec::new();
    ciborium::ser::into_writer(value, &mut bytes).unwrap();
    bytes
}

#[test]
fn sender_urls_add_the_fragment() {
    assert_eq!(sender_url(OUR, "inbox").unwrap(), format!("{OUR}#inbox"));
    assert_eq!(sender_url(&format!("{OUR}#lobby"), "inbox").unwrap(), format!("{OUR}#inbox"));
    assert!(sender_url("did:ma:nope", "inbox").is_err());
    assert!(sender_url(OUR, "bad fragment").is_err());
    assert_eq!(
        sender_url("did:web:x", "inbox").unwrap_err(),
        ma_core::Did::try_from("did:web:x").unwrap_err().to_string()
    );
}

#[test]
fn did_ids_render_parts() {
    let bare = DidParts { ipns: "k51".into(), fragment: None };
    assert_eq!(did_id(&bare), "did:ma:k51");
    let url = DidParts { ipns: "k51".into(), fragment: Some("x".into()) };
    assert_eq!(did_id(&url), "did:ma:k51#x");
}

#[test]
fn messages_are_signed_from_the_inbox_url() {
    let to = format!("{OUR}#room");
    let m = build_message(
        OUR,
        [7u8; 32],
        &to,
        ma_core::MESSAGE_TYPE_MESSAGE,
        ma_core::CONTENT_TYPE_TERM,
        &cbor_bytes(&ciborium::Value::Text(":ping".into())),
    )
    .unwrap();
    assert_eq!(m.from, format!("{OUR}#inbox"));
    assert_eq!(m.to, to);
    assert_eq!(m.message_type, ma_core::MESSAGE_TYPE_MESSAGE);
    assert_eq!(m.content_type, ma_core::CONTENT_TYPE_TERM);
    assert_eq!(m.reply_to, None);
    assert!(!m.signature.is_empty());
    assert_eq!(
        message_payload(&m.content),
        cbor_bytes(&ciborium::Value::Text(":ping".into()))
    );
}

#[test]
fn messages_to_non_dids_are_refused() {
    let err = build_message(OUR, [7u8; 32], "@sky#room", "t", "text/plain", b"hi").unwrap_err();
    assert_eq!(err, ma_core::Did::try_from("@sky#room").unwrap_err().to_string());
    assert!(build_message("not a did", [7u8; 32], OUR, "t", "text/plain", b"hi").is_err());
}

#[test]
fn replies_are_routed_by_their_correlation_id() {
    let payload = cbor_bytes(&ciborium::Value::Array(vec![
        ciborium::Value::Text(":ok".into()),
        ciborium::Value::Integer(5.into()),
    ]));
    let mut m = build_message(OUR, [1u8; 32], OUR, "t", ma_core::CONTENT_TYPE_TERM, &payload)
        .unwrap();
    assert_eq!(route_reply(&m), None);
    m.reply_to = Some("abc".into());
    assert_eq!(route_reply(&m), Some(("abc".to_string(), Ok(Val::Int(5)))));
}

#[test]
fn content_without_a_codec_prefix_is_its_own_payload() {
    assert_eq!(message_payload(&[]), Vec::<u8>::new());
    let framed = ma_core::encode_content(ma_core::CODEC_CBOR, b"xyz");
    assert_eq!(message_payload(&framed), b"xyz".to_vec());
}

#[test]
fn message_content_is_the_body_behind_its_codec() {
    let to = format!("{OUR}#room");
    let text = build_message(OUR, [7u8; 32], &to, "t", "text/plain", b"hello").unwrap();
    let mut expected = vec![0x00u8];
    expected.extend_from_slice(b"hello");
    assert_eq!(text.content, expected);
    assert_eq!(message_payload(&text.content), b"hello".to_vec());

    let term = build_message(OUR, [7u8; 32], &to, "t", ma_core::CONTENT_TYPE_TERM, b"\x61x").unwrap();
    assert_eq!(term.content, vec![0x51u8, 0x61, b'x']);

    let dag = build_message(OUR, [7u8; 32], &to, "t", "application/vnd.ipld.dag-cbor", b"z").unwrap();
    assert_eq!(dag.content, vec![0x71u8, b'z']);
}

#[test]
fn messages_are_signed_with_the_given_key() {
    let to = format!("{OUR}#room");
    let m = build_message(OUR, [7u8; 32], &to, "t", "text/plain", b"hello").unwrap();
    let signer = ma_core::SigningKey::from_private_key_bytes(
        ma_core::Did::try_from(format!("{OUR}#inbox").as_str()).unwrap(),
        [7u8; 32],
    )
    .unwrap();
    let headers = ma_core::Headers {
        id: m.id.clone(),
        protocol: m.protocol.clone(),
        message_type: m.message_type.clone(),
        from: m.from.clone(),
        to: m.to.clone(),
        created_at: m.created_at,
        exp: m.exp,
        content_type: m.content_type.clone(),
        reply_to: m.reply_to.clone(),
        content_hash: *blake3::hash(&m.content).as_bytes(),
        signature: Vec::new(),
    };
    let mut bytes = Vec::new();
    ciborium::ser::into_writer(&headers, &mut bytes).unwrap();
    assert_eq!(signer.sign(&bytes), m.signature);
    let other = ma_core::SigningKey::from_private_key_bytes(
        ma_core::Did::try_from(format!("{OUR}#inbox").as_str()).unwrap(),
        [8u8; 32],
    )
    .unwrap();
    assert_ne!(other.sign(&bytes), m.signature);
}
