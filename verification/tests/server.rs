use helix_daemon::proto::{Request, Response, SessionId};
use helix_daemon::server::{delivery_response, ConnDisposition, Server};
use helix_daemon::session::{SessionEvent, SessionEventKind};
use helix_daemon::Signal;

fn bv(s: &str) -> Vec<u8> {
    s.as_bytes().to_vec()
}

#[test]
fn new_session_allocates_one() {
    let mut server = Server::new();
    let out = server.handle_request(Request::NewSession, 100);
    assert_eq!(out.response, Response::NewSession(SessionId(1)));
    assert_eq!(out.disposition, ConnDisposition::StartSession(SessionId(1)));
    assert!(out.terminations.is_empty());
    assert_eq!(server.sessions.len(), 1);
    assert_eq!(server.sessions[0].sid, SessionId(1));
    assert_eq!(server.sessions[0].timestamp(), 100);
    assert!(server.sessions[0].alias().is_empty());
    assert!(!server.sessions[0].is_detached());
}

#[test]
fn sids_are_monotonic_and_never_reused() {
    let mut server = Server::new();
    server.handle_request(Request::NewSession, 1);
    server.handle_request(Request::NewSession, 2);
    // reap the first session
    server.handle_event(SessionEvent {
        sid: SessionId(1),
        kind: SessionEventKind::Terminated { expected: true },
    });
    let out = server.handle_request(Request::NewSession, 3);
    assert_eq!(out.response, Response::NewSession(SessionId(3)));
}

#[test]
fn list_sessions_snapshots_in_order() {
    let mut server = Server::new();
    server.handle_request(Request::NewSession, 10);
    server.handle_request(Request::NewSession, 20);
    server.handle_request(Request::AliasSession { sid: SessionId(2), alias: bv("work") }, 21);
    let out = server.handle_request(Request::ListSessions, 30);
    match out.response {
        Response::ListSessions(rows) => {
            assert_eq!(rows.len(), 2);
            assert_eq!(rows[0].sid, SessionId(1));
            assert_eq!(rows[0].timestamp, 10);
            assert!(rows[0].alias.is_empty());
            assert_eq!(rows[1].sid, SessionId(2));
            assert_eq!(rows[1].alias, bv("work"));
        }
        other => panic!("expected a session list, got {:?}", other),
    }
    assert_eq!(out.disposition, ConnDisposition::Close);
}

#[test]
fn attach_needs_a_detached_session() {
    let mut server = Server::new();
    server.handle_request(Request::NewSession, 1);
    // occupied: the fresh session has its client attached
    let out = server.handle_request(Request::AttachSession(SessionId(1)), 2);
    assert_eq!(out.response, Response::Error);
    assert_eq!(out.disposition, ConnDisposition::Close);
    // unknown sid
    let out = server.handle_request(Request::AttachSession(SessionId(9)), 3);
    assert_eq!(out.response, Response::Error);
    // after the client detached, the attach succeeds and clears the flag
    server.handle_event(SessionEvent { sid: SessionId(1), kind: SessionEventKind::ClientDetached });
    assert!(server.sessions[0].is_detached());
    let out = server.handle_request(Request::AttachSession(SessionId(1)), 4);
    assert_eq!(out.response, Response::NewSession(SessionId(1)));
    assert_eq!(out.disposition, ConnDisposition::HandToSession(SessionId(1)));
    assert!(!server.sessions[0].is_detached());
}

#[test]
fn attach_by_alias_takes_the_first_match() {
    let mut server = Server::new();
    server.handle_request(Request::NewSession, 1);
    server.handle_request(Request::NewSession, 2);
    server.handle_request(Request::AliasSession { sid: SessionId(1), alias: bv("work") }, 3);
    server.handle_request(Request::AliasSession { sid: SessionId(2), alias: bv("work") }, 4);
    server.handle_event(SessionEvent { sid: SessionId(1), kind: SessionEventKind::ClientDetached });
    server.handle_event(SessionEvent { sid: SessionId(2), kind: SessionEventKind::ClientDetached });
    let out = server.handle_request(Request::AttachSessionByAlias(bv("work")), 5);
    // registry iteration order decides: the first matching alias wins
    assert_eq!(out.response, Response::NewSession(SessionId(1)));
    // a second concurrent attach to the same name hits the now-occupied first match
    let out = server.handle_request(Request::AttachSessionByAlias(bv("work")), 6);
    assert_eq!(out.response, Response::Error);
    // an unknown alias misses
    let out = server.handle_request(Request::AttachSessionByAlias(bv("nosuch")), 7);
    assert_eq!(out.response, Response::Error);
}

#[test]
fn alias_needs_an_existing_session() {
    let mut server = Server::new();
    let out = server.handle_request(Request::AliasSession { sid: SessionId(1), alias: bv("x") }, 1);
    assert_eq!(out.response, Response::Error);
    server.handle_request(Request::NewSession, 2);
    let out = server.handle_request(Request::AliasSession { sid: SessionId(1), alias: bv("x") }, 3);
    assert_eq!(out.response, Response::Okay);
    assert_eq!(server.sessions[0].alias(), &bv("x"));
}

#[test]
fn kill_owes_a_termination_request() {
    let mut server = Server::new();
    server.handle_request(Request::NewSession, 1);
    let out = server.handle_request(Request::KillSession { sid: SessionId(1), force: false }, 2);
    assert_eq!(out.response, Response::Okay);
    assert_eq!(out.terminations, vec![(SessionId(1), false)]);
    // the registry keeps the record until the session's own Terminated event
    assert_eq!(server.sessions.len(), 1);
    let out = server.handle_request(Request::KillSession { sid: SessionId(9), force: true }, 3);
    assert_eq!(out.response, Response::Error);
    assert!(out.terminations.is_empty());
}

#[test]
fn kill_by_unknown_alias_is_refused() {
    let mut server = Server::new();
    server.handle_request(Request::NewSession, 1);
    let out = server
        .handle_request(Request::KillSessionByAlias { alias: bv("nosuch"), force: false }, 2);
    assert_eq!(out.response, Response::Error);
    assert!(out.terminations.is_empty());
    assert!(server.run);
}

#[test]
fn stop_drains_everything() {
    let mut server = Server::new();
    server.handle_request(Request::NewSession, 1);
    server.handle_request(Request::NewSession, 2);
    let out = server.handle_request(Request::StopServer { force: true }, 3);
    assert_eq!(out.response, Response::Okay);
    assert_eq!(out.terminations, vec![(SessionId(1), true), (SessionId(2), true)]);
    assert!(server.sessions.is_empty());
    assert!(!server.run);
}

#[test]
fn terminated_event_reaps_the_record() {
    let mut server = Server::new();
    server.handle_request(Request::NewSession, 1);
    let out = server.handle_event(SessionEvent {
        sid: SessionId(1),
        kind: SessionEventKind::Terminated { expected: true },
    });
    assert_eq!(out.join, Some(SessionId(1)));
    assert!(server.sessions.is_empty());
    // a stale event after a stop drained the registry is tolerated
    let out = server.handle_event(SessionEvent {
        sid: SessionId(1),
        kind: SessionEventKind::Terminated { expected: false },
    });
    assert_eq!(out.join, None);
}

#[test]
fn signal_forces_every_session_out() {
    let mut server = Server::new();
    server.handle_request(Request::NewSession, 1);
    server.handle_request(Request::NewSession, 2);
    let out = server.handle_signal(Signal::Interrupt);
    assert_eq!(out.terminations, vec![(SessionId(1), true), (SessionId(2), true)]);
    assert!(out.remove_socket);
    assert_eq!(out.exit_code, 0);
    assert!(server.sessions.is_empty());
}

#[test]
fn kill_reply_reflects_delivery() {
    assert_eq!(delivery_response(true), Response::Okay);
    assert_eq!(delivery_response(false), Response::Error);
}
