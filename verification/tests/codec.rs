use helix_daemon::codec::{
    decode_request, decode_response, decode_session_request, decode_session_response,
    encode_request, encode_response, encode_session_request, encode_session_response, fits_frame,
};
use helix_daemon::proto::{Request, Response, SessionId, SessionInfo, SessionRequest, SessionResponse};

fn bv(s: &str) -> Vec<u8> {
    s.as_bytes().to_vec()
}

#[test]
fn request_round_trips() {
    let reqs = vec![
        Request::NewSession,
        Request::AttachSession(SessionId(7)),
        Request::AttachSessionByAlias(bv("work")),
        Request::KillSession { sid: SessionId(3), force: true },
        Request::KillSessionByAlias { alias: bv("x"), force: false },
        Request::AliasSession { sid: SessionId(1), alias: bv("main") },
        Request::ListSessions,
        Request::StopServer { force: false },
    ];
    for req in reqs {
        let bytes = encode_request(&req);
        let back = decode_request(bytes.as_slice()).unwrap();
        assert_eq!(back, req);
    }
}

#[test]
fn request_encoding_is_deterministic() {
    let a = encode_request(&Request::AttachSessionByAlias(bv("work")));
    let b = encode_request(&Request::AttachSessionByAlias(bv("work")));
    assert_eq!(a, b);
}

#[test]
fn request_pinned_bytes() {
    assert_eq!(encode_request(&Request::NewSession), vec![0, 0, 0, 0]);
    assert_eq!(
        encode_request(&Request::AttachSession(SessionId(1))),
        vec![1, 0, 0, 0, 1, 0, 0, 0, 0, 0, 0, 0]
    );
    assert_eq!(
        encode_request(&Request::AttachSessionByAlias(bv("work"))),
        vec![2, 0, 0, 0, 4, 0, 0, 0, 0, 0, 0, 0, b'w', b'o', b'r', b'k']
    );
    assert_eq!(encode_request(&Request::ListSessions), vec![6, 0, 0, 0]);
    assert_eq!(encode_request(&Request::StopServer { force: true }), vec![7, 0, 0, 0, 1]);
}

#[test]
fn request_decode_refuses_malformed() {
    assert!(decode_request(&[]).is_err());
    assert!(decode_request(&[0, 0, 0]).is_err());
    // unknown tag
    assert!(decode_request(&[9, 0, 0, 0]).is_err());
    // trailing byte after a complete message
    assert!(decode_request(&[0, 0, 0, 0, 0]).is_err());
    // a bool byte other than 0 or 1
    assert!(decode_request(&[7, 0, 0, 0, 2]).is_err());
    // length prefix disagreeing with the frame
    assert!(decode_request(&[2, 0, 0, 0, 5, 0, 0, 0, 0, 0, 0, 0, b'w']).is_err());
}

#[test]
fn response_round_trips() {
    let rsps = vec![
        Response::NewSession(SessionId(9)),
        Response::ListSessions(vec![
            SessionInfo { sid: SessionId(1), timestamp: 1700000000, alias: bv("") },
            SessionInfo { sid: SessionId(2), timestamp: 1700000351, alias: bv("work") },
        ]),
        Response::Okay,
        Response::Error,
    ];
    for rsp in rsps {
        let bytes = encode_response(&rsp);
        let back = decode_response(bytes.as_slice()).unwrap();
        assert_eq!(back, rsp);
    }
}

#[test]
fn response_pinned_bytes() {
    assert_eq!(encode_response(&Response::Okay), vec![2, 0, 0, 0]);
    assert_eq!(encode_response(&Response::Error), vec![3, 0, 0, 0]);
    // an empty list: tag 1, then a zero row count
    assert_eq!(
        encode_response(&Response::ListSessions(vec![])),
        vec![1, 0, 0, 0, 0, 0, 0, 0, 0, 0, 0, 0]
    );
}

#[test]
fn response_decode_refuses_malformed() {
    assert!(decode_response(&[]).is_err());
    assert!(decode_response(&[4, 0, 0, 0]).is_err());
    // a row count with no rows behind it
    assert!(decode_response(&[1, 0, 0, 0, 1, 0, 0, 0, 0, 0, 0, 0]).is_err());
    // trailing bytes after the rows
    let mut bytes = encode_response(&Response::ListSessions(vec![]));
    bytes.push(0);
    assert!(decode_response(bytes.as_slice()).is_err());
}

#[test]
fn session_messages_round_trip() {
    for msg in [SessionRequest::Terminate, SessionRequest::Detach] {
        let bytes = encode_session_request(&msg);
        assert_eq!(decode_session_request(bytes.as_slice()).unwrap(), msg);
    }
    for msg in [
        SessionResponse::Terminated(true),
        SessionResponse::Terminated(false),
        SessionResponse::Error,
        SessionResponse::Okay,
    ] {
        let bytes = encode_session_response(&msg);
        assert_eq!(decode_session_response(bytes.as_slice()).unwrap(), msg);
    }
}

#[test]
fn session_message_pinned_bytes() {
    assert_eq!(encode_session_request(&SessionRequest::Terminate), vec![0, 0, 0, 0]);
    assert_eq!(encode_session_request(&SessionRequest::Detach), vec![1, 0, 0, 0]);
    assert_eq!(
        encode_session_response(&SessionResponse::Terminated(true)),
        vec![0, 0, 0, 0, 1]
    );
    assert_eq!(encode_session_response(&SessionResponse::Okay), vec![2, 0, 0, 0]);
    assert!(decode_session_response(&[0, 0, 0, 0, 3]).is_err());
    assert!(decode_session_request(&[2, 0, 0, 0]).is_err());
}

#[test]
fn frame_capacity() {
    let small = encode_request(&Request::NewSession);
    assert!(fits_frame(&small));
    let big = Request::AttachSessionByAlias(vec![b'x'; 2000]);
    assert!(!fits_frame(&encode_request(&big)));
}
