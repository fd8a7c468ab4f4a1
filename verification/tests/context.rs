use ciborium::Value as V;
use zscheme::context::{
    actor_message_term, call_result, decode_reply, dot_command, dot_get_result, kubo_cat_url,
    normalize_actor_str, plan_dot_command, random_bytes, reply_from_term, DotCommand,
};
use zscheme::error::SchemeError;
use zscheme::value::{cbor_to_value, value_to_cbor, Cbor, Val};

fn cbor_bytes(value: &V) -> Vec<u8> {
    let mut bytes = Vec::new();
    ciborium::ser::into_writer(value, &mut bytes).unwrap();
    bytes
}

#[test]
fn bytes_round_trip_through_cbor_value() {
    let value = Val::Bytes(vec![0x89, b'P', b'N', b'G']);
    let Val::Bytes(bytes) = cbor_to_value(&value_to_cbor(&value)) else {
        panic!("expected byte value");
    };
    assert_eq!(bytes, vec![0x89, b'P', b'N', b'G']);
}

#[test]
fn bare_ok_ack_is_preserved_as_an_atom_not_nil() {
    assert!(matches!(
        decode_reply(&cbor_bytes(&V::Text(":ok".to_string()))).unwrap(),
        Val::Str(s) if s == ":ok"
    ));
}

#[test]
fn empty_ok_array_is_the_array_form_of_the_bare_ack() {
    assert!(matches!(
        decode_reply(&cbor_bytes(&V::Array(vec![V::Text(":ok".to_string())]))).unwrap(),
        Val::Str(s) if s == ":ok"
    ));
}

#[test]
fn ok_array_with_payload_returns_the_payload() {
    assert!(matches!(
        decode_reply(&cbor_bytes(&V::Array(vec![
            V::Text(":ok".to_string()),
            V::Text("prop updated".to_string()),
        ])))
        .unwrap(),
        Val::Str(s) if s == "prop updated"
    ));
}

#[test]
fn error_array_returns_the_reason() {
    assert_eq!(
        decode_reply(&cbor_bytes(&V::Array(vec![
            V::Text(":error".to_string()),
            V::Text("not authorised to edit props".to_string()),
        ])))
        .unwrap_err(),
        "not authorised to edit props"
    );
}

#[test]
fn error_array_without_text_reason_reports_the_raw_payload() {
    let payload = cbor_bytes(&V::Array(vec![V::Text(":error".to_string()), V::Integer(7.into())]));
    assert_eq!(
        decode_reply(&payload).unwrap_err(),
        String::from_utf8_lossy(&payload).to_string()
    );
    let payload = cbor_bytes(&V::Array(vec![V::Text(":error".to_string())]));
    assert_eq!(
        decode_reply(&payload).unwrap_err(),
        String::from_utf8_lossy(&payload).to_string()
    );
}

#[test]
fn non_cbor_payload_is_its_own_text() {
    assert_eq!(decode_reply(b"\xffhi").unwrap(), Val::Str("\u{fffd}hi".to_string()));
    assert_eq!(decode_reply(b"").unwrap(), Val::Str(String::new()));
}

#[test]
fn other_replies_are_converted_values() {
    let payload = cbor_bytes(&V::Array(vec![V::Integer(1.into()), V::Null, V::Bool(true)]));
    assert_eq!(
        decode_reply(&payload).unwrap(),
        Val::List(vec![Val::Int(1), Val::Nil, Val::Bool(true)])
    );
    let payload = cbor_bytes(&V::Array(vec![
        V::Text(":ok".to_string()),
        V::Array(vec![V::Text("a".to_string())]),
        V::Text("ignored".to_string()),
    ]));
    assert_eq!(decode_reply(&payload).unwrap(), Val::List(vec![Val::Str("a".to_string())]));
}

#[test]
fn large_integers_become_decimal_text() {
    let big = V::Integer(ciborium::value::Integer::try_from(u64::MAX as i128).unwrap());
    assert_eq!(
        decode_reply(&cbor_bytes(&big)).unwrap(),
        Val::Str("18446744073709551615".to_string())
    );
    let small = V::Integer(ciborium::value::Integer::try_from(-(u64::MAX as i128) - 1).unwrap());
    assert_eq!(
        decode_reply(&cbor_bytes(&small)).unwrap(),
        Val::Str("-18446744073709551616".to_string())
    );
    let min = V::Integer(i64::MIN.into());
    assert_eq!(decode_reply(&cbor_bytes(&min)).unwrap(), Val::Int(i64::MIN));
}

#[test]
fn tags_are_looked_through_and_floats_kept() {
    let payload = cbor_bytes(&V::Tag(42, Box::new(V::Float(1.5))));
    assert_eq!(decode_reply(&payload).unwrap(), Val::Float(1.5f64.to_bits()));
}

#[test]
fn text_keyed_maps_keep_the_last_value_per_key() {
    let payload = cbor_bytes(&V::Map(vec![
        (V::Text("b".to_string()), V::Integer(1.into())),
        (V::Text("a".to_string()), V::Integer(2.into())),
        (V::Text("b".to_string()), V::Integer(3.into())),
    ]));
    assert_eq!(
        decode_reply(&payload).unwrap(),
        Val::Dict(vec![("a".to_string(), Val::Int(2)), ("b".to_string(), Val::Int(3))])
    );
}

#[test]
fn text_keyed_maps_are_ordered_by_key() {
    let payload = cbor_bytes(&V::Map(vec![
        (V::Text("é".to_string()), V::Integer(1.into())),
        (V::Text("ab".to_string()), V::Integer(2.into())),
        (V::Text("z".to_string()), V::Integer(3.into())),
        (V::Text("a".to_string()), V::Integer(4.into())),
        (V::Text("B".to_string()), V::Integer(5.into())),
    ]));
    assert_eq!(
        decode_reply(&payload).unwrap(),
        Val::Dict(vec![
            ("B".to_string(), Val::Int(5)),
            ("a".to_string(), Val::Int(4)),
            ("ab".to_string(), Val::Int(2)),
            ("z".to_string(), Val::Int(3)),
            ("é".to_string(), Val::Int(1)),
        ])
    );
}

#[test]
fn maps_with_other_keys_become_pair_lists() {
    let payload = cbor_bytes(&V::Map(vec![
        (V::Text("a".to_string()), V::Integer(1.into())),
        (V::Integer(2.into()), V::Bytes(vec![9])),
    ]));
    assert_eq!(
        decode_reply(&payload).unwrap(),
        Val::List(vec![
            Val::List(vec![Val::Str("a".to_string()), Val::Int(1)]),
            Val::List(vec![Val::Int(2), Val::Bytes(vec![9])]),
        ])
    );
}

#[test]
fn data_values_round_trip_through_cbor() {
    let v = Val::List(vec![
        Val::Str("x".to_string()),
        Val::Int(-5),
        Val::Float(2.25f64.to_bits()),
        Val::Bool(false),
        Val::Nil,
        Val::Bytes(vec![1, 2]),
        Val::Dict(vec![
            ("a".to_string(), Val::List(vec![])),
            ("z".to_string(), Val::Int(1)),
        ]),
    ]);
    let c = value_to_cbor(&v);
    assert_eq!(cbor_to_value(&c), v);
}

#[test]
fn references_and_procedures_are_sent_as_text() {
    assert_eq!(value_to_cbor(&Val::Path(".my.x".to_string())), Cbor::Text(".my.x".to_string()));
    assert_eq!(value_to_cbor(&Val::Actor("@sky".to_string())), Cbor::Text("@sky".to_string()));
    assert_eq!(
        value_to_cbor(&Val::Procedure("#<lambda>".to_string())),
        Cbor::Text("#<lambda>".to_string())
    );
}

#[test]
fn actor_message_terms() {
    assert_eq!(actor_message_term("enter", &[]), Cbor::Text(":enter".to_string()));
    assert_eq!(actor_message_term(":enter", &[]), Cbor::Text(":enter".to_string()));
    assert_eq!(
        actor_message_term("enter", &[Val::Str("#room".to_string()), Val::Int(2)]),
        Cbor::Array(vec![
            Cbor::Text(":enter".to_string()),
            Cbor::Text("#room".to_string()),
            Cbor::Integer(2),
        ])
    );
    assert_eq!(actor_message_term("", &[]), Cbor::Text(":".to_string()));
}

#[test]
fn normalizes_actor_strings() {
    assert_eq!(normalize_actor_str("sky#room"), "@sky#room");
    assert_eq!(normalize_actor_str("@sky#room"), "@sky#room");
    assert_eq!(normalize_actor_str("did:ma:abc#x"), "did:ma:abc#x");
    assert_eq!(normalize_actor_str("did"), "@did");
    assert_eq!(normalize_actor_str(""), "@");
    let once = normalize_actor_str("room");
    assert_eq!(normalize_actor_str(&once), once);
}

#[test]
fn kubo_cat_urls() {
    assert_eq!(
        kubo_cat_url("http://127.0.0.1:5001//", "/ipfs/bafy"),
        "http://127.0.0.1:5001/api/v0/cat?arg=/ipfs/bafy"
    );
    assert_eq!(kubo_cat_url("http://k", "x"), "http://k/api/v0/cat?arg=x");
}

#[test]
fn dot_reads() {
    assert_eq!(
        dot_get_result("my/i18n", Some("nb".to_string()), vec![]).unwrap(),
        Val::Str("nb".to_string())
    );
    assert_eq!(
        dot_get_result(
            "my/aliases",
            None,
            vec![".my.aliases.ms".to_string(), ".my.aliases.sky".to_string()]
        )
        .unwrap(),
        Val::List(vec![
            Val::Str(".my.aliases.ms".to_string()),
            Val::Str(".my.aliases.sky".to_string())
        ])
    );
    assert_eq!(
        dot_get_result("my/none/here", None, vec![]).unwrap_err(),
        SchemeError::MaError("no value at .my.none.here".to_string())
    );
}

#[test]
fn unit_host_dot_parser_accepts_normalised_paths() {
    let (path, op) = dot_command(".my.aliases.sky").unwrap();
    assert_eq!(path, "my/aliases/sky");
    assert!(matches!(op, DotCommand::Get));

    let (path, op) = dot_command(".my.i18n: nb").unwrap();
    assert_eq!(path, "my/i18n");
    assert!(matches!(op, DotCommand::Store(value) if value == "nb"));
}

#[test]
fn unit_dot_parser_rejects_legacy_slash_local_config() {
    assert!(dot_command("/my/aliases/sky").is_err());
    assert!(dot_command("my/aliases/sky").is_err());
}

#[test]
fn dot_commands_delete_meta_and_errors() {
    let (path, op) = dot_command(".my.i18n:").unwrap();
    assert_eq!(path, "my/i18n");
    assert_eq!(op, DotCommand::Delete);
    let (path, op) = dot_command(".my.doc.poem!publish now please").unwrap();
    assert_eq!(path, "my/doc/poem");
    assert_eq!(
        op,
        DotCommand::Meta { verb: "publish".to_string(), args: "now please".to_string() }
    );
    assert_eq!(
        dot_command("my/aliases/sky").unwrap_err(),
        SchemeError::MaError("bad path command: my/aliases/sky".to_string())
    );
    assert_eq!(
        plan_dot_command("x", None).unwrap_err(),
        SchemeError::MaError("bad path command: x".to_string())
    );
}

#[test]
fn actor_call_results() {
    assert_eq!(call_result(Some(Ok(Val::Int(3)))).unwrap(), Val::Int(3));
    assert_eq!(
        call_result(Some(Err("nope".to_string()))).unwrap_err(),
        SchemeError::MaError("nope".to_string())
    );
    assert_eq!(
        call_result(None).unwrap_err(),
        SchemeError::MaError("reply channel cancelled".to_string())
    );
}

#[test]
fn random_bytes_have_the_asked_length() {
    assert_eq!(random_bytes(0).unwrap(), Vec::<u8>::new());
    assert_eq!(random_bytes(33).unwrap().len(), 33);
}

#[test]
fn random_bytes_are_filled_from_the_system_source() {
    let a = random_bytes(64).unwrap();
    let b = random_bytes(64).unwrap();
    assert!(a.iter().any(|&x| x != 0) || b.iter().any(|&x| x != 0));
    assert_ne!(a, b);
}

#[test]
fn dot_commands_follow_the_path_grammar() {
    let (path, op) = dot_command("  .my.x!verb   a b  ").unwrap();
    assert_eq!(path, "my/x");
    assert_eq!(op, DotCommand::Meta { verb: "verb".to_string(), args: "  a b".to_string() });
    let (path, op) = dot_command(".my.x!go").unwrap();
    assert_eq!(path, "my/x");
    assert_eq!(op, DotCommand::Meta { verb: "go".to_string(), args: String::new() });
    let (path, op) = dot_command(".my.x:   ").unwrap();
    assert_eq!(path, "my/x");
    assert_eq!(op, DotCommand::Delete);
    let (path, op) = dot_command(".a.b: c:d").unwrap();
    assert_eq!(path, "a/b");
    assert_eq!(op, DotCommand::Store("c:d".to_string()));
    assert!(dot_command("..x").is_err());
    assert!(dot_command(".").is_err());
    assert!(dot_command("   ").is_err());
}

#[test]
fn reply_terms_carry_values_or_errors() {
    let ok = Cbor::Array(vec![Cbor::Text(":ok".to_string()), Cbor::Integer(5)]);
    assert_eq!(reply_from_term(&ok, "raw"), Ok(Val::Int(5)));
    let bare = Cbor::Array(vec![Cbor::Text(":ok".to_string())]);
    assert_eq!(reply_from_term(&bare, "raw"), Ok(Val::Str(":ok".to_string())));
    let reason = Cbor::Array(vec![Cbor::Text(":error".to_string()), Cbor::Text("no".to_string())]);
    assert_eq!(reply_from_term(&reason, "raw"), Err("no".to_string()));
    let opaque = Cbor::Array(vec![Cbor::Text(":error".to_string()), Cbor::Integer(1)]);
    assert_eq!(reply_from_term(&opaque, "raw"), Err("raw".to_string()));
    assert_eq!(reply_from_term(&Cbor::Integer(7), "raw"), Ok(Val::Int(7)));
}
