use zscheme::ipc::{encode_frame, frame_len, is_answer, FrameError, Request, Response, MAX_FRAME_LEN};

#[test]
fn frames_carry_a_big_endian_length() {
    let f = encode_frame(b"hello").unwrap();
    assert_eq!(f, vec![0, 0, 0, 5, b'h', b'e', b'l', b'l', b'o']);
    assert_eq!(encode_frame(b"").unwrap(), vec![0, 0, 0, 0]);
    let big = vec![7u8; 70_000];
    let f = encode_frame(&big).unwrap();
    assert_eq!(&f[..4], &(70_000u32).to_be_bytes());
    assert_eq!(&f[4..], &big[..]);
}

#[test]
fn frame_headers_round_trip() {
    for n in [0u32, 1, 255, 256, 65_535, 1 << 20, MAX_FRAME_LEN] {
        let payload = vec![0u8; n as usize];
        let f = encode_frame(&payload).unwrap();
        let header = [f[0], f[1], f[2], f[3]];
        assert_eq!(frame_len(header).unwrap(), n);
    }
}

#[test]
fn oversized_frames_are_refused() {
    let too_big = MAX_FRAME_LEN + 1;
    let err = frame_len(too_big.to_be_bytes()).unwrap_err();
    assert_eq!(err, FrameError::FrameTooLarge { len: too_big });
    assert_eq!(err.message(), format!("IPC frame too large: {too_big} bytes"));
    assert_eq!(
        frame_len([0xff, 0xff, 0xff, 0xff]).unwrap_err(),
        FrameError::FrameTooLarge { len: u32::MAX }
    );
    assert_eq!(FrameError::PayloadTooLarge { size: 0 }.message(), "frame too large");
}

#[test]
fn answers_match_requests() {
    let hello = Request::Hello { version: "1".to_string() };
    let ack = Response::HelloAck { version: "1".to_string(), did: "did:ma:x".to_string() };
    assert!(is_answer(&hello, &ack));
    assert!(is_answer(&Request::Ping, &Response::Pong));
    assert!(is_answer(&Request::Stop, &Response::Stopping));
    assert!(is_answer(&Request::Reset, &Response::ResetDone));
    assert!(is_answer(&Request::DumpEnv, &Response::EnvDump { source: String::new() }));
    let eval = Request::Eval { id: 4, source: "(+ 1 2)".to_string(), isolated: false };
    assert!(is_answer(&eval, &Response::EvalResult { id: 4, outcome: Ok(None) }));
    assert!(!is_answer(&eval, &Response::EvalResult { id: 5, outcome: Ok(None) }));
    assert!(!is_answer(&eval, &Response::Display { id: 4, text: "x".to_string() }));
    assert!(!is_answer(&Request::Stop, &Response::Pong));
    assert!(!is_answer(&Request::Reset, &Response::Stopping));
}
