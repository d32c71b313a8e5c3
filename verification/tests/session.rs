use helix_daemon::channel::{ChannelError, DetachableChannel, PeerClose};
use helix_daemon::proto::{SessionId, SessionRequest, SessionResponse};
use helix_daemon::server::ServerEvent;
use helix_daemon::session::{ClientInbound, Session, SessionEventKind, SessionExit};

fn fresh_session() -> Session {
    let channel = DetachableChannel::new_attached();
    let (session, handle) = Session::spawn(SessionId(1), channel, 50);
    assert_eq!(handle.sid, SessionId(1));
    assert_eq!(handle.timestamp(), 50);
    assert!(handle.alias().is_empty());
    assert!(!handle.is_detached());
    session
}

#[test]
fn client_terminate_ends_gracefully() {
    let mut session = fresh_session();
    let step = session.handle_request(ClientInbound::Message(SessionRequest::Terminate));
    assert_eq!(step.send_client, Some(SessionResponse::Terminated(false)));
    assert_eq!(step.emit, Some(SessionEventKind::Terminated { expected: true }));
    assert!(step.close_socket);
    assert_eq!(step.exit, Some(SessionExit::Expected));
    assert!(!session.run);
}

#[test]
fn forced_termination_is_unexpected() {
    let mut session = fresh_session();
    let step = session.handle_event(ServerEvent::RequestTermination { forced: true });
    assert_eq!(step.send_client, Some(SessionResponse::Terminated(true)));
    assert_eq!(step.emit, Some(SessionEventKind::Terminated { expected: false }));
    assert_eq!(step.exit, Some(SessionExit::Unexpected));
    assert!(!session.run);
}

#[test]
fn unforced_termination_is_expected() {
    let mut session = fresh_session();
    let step = session.handle_event(ServerEvent::RequestTermination { forced: false });
    assert_eq!(step.send_client, Some(SessionResponse::Terminated(false)));
    assert_eq!(step.emit, Some(SessionEventKind::Terminated { expected: true }));
    assert_eq!(step.exit, Some(SessionExit::Expected));
}

#[test]
fn detach_then_reattach_resumes() {
    let mut session = fresh_session();
    // the client asks to detach: the server is told, the socket stays open
    let step = session.handle_request(ClientInbound::Message(SessionRequest::Detach));
    assert_eq!(step.emit, Some(SessionEventKind::ClientDetached));
    assert_eq!(step.exit, None);
    assert!(session.channel.detaching);
    // the peer then closes: an expected detach, the session lives on
    let step = session.handle_request(ClientInbound::Closed);
    assert_eq!(step.emit, None);
    assert_eq!(step.exit, None);
    assert!(session.run);
    assert!(!session.channel.attached);
    // a fresh client is grafted on: messaging resumes
    let step = session.handle_event(ServerEvent::AttachRequest);
    assert!(!step.reject_offered);
    assert!(session.channel.attached);
    // and the wakeup sentinel only proves the loop alive
    let step = session.handle_request(ClientInbound::Wakeup);
    assert_eq!(step.exit, None);
    assert!(session.run);
}

#[test]
fn attach_on_occupied_session_rejects_the_offer() {
    let mut session = fresh_session();
    let step = session.handle_event(ServerEvent::AttachRequest);
    assert!(step.reject_offered);
    assert!(session.channel.attached);
    assert!(session.run);
}

#[test]
fn unannounced_close_terminates_unexpectedly() {
    let mut session = fresh_session();
    let step = session.handle_request(ClientInbound::Closed);
    assert_eq!(step.emit, Some(SessionEventKind::Terminated { expected: false }));
    assert_eq!(step.exit, Some(SessionExit::Unexpected));
    assert!(!session.run);
}

#[test]
fn channel_automaton() {
    let mut c = DetachableChannel::new_attached();
    assert!(c.is_attached());
    assert!(c.can_send());
    // at most one peer: an attach on an occupied channel fails and changes
    // nothing
    assert_eq!(c.attach(), Err(ChannelError::Occupied));
    assert!(c.is_attached());
    // an armed close is an expected detach
    c.detach();
    assert_eq!(c.on_peer_closed(), PeerClose::ExpectedDetach);
    assert!(!c.can_send());
    // a fresh peer is accepted on the detached channel
    assert_eq!(c.attach(), Ok(()));
    assert!(c.can_send());
    // an unannounced close is an unexpected disconnect
    assert_eq!(c.on_peer_closed(), PeerClose::UnexpectedDisconnect);
    // shutdown without a peer has no socket to close
    assert!(!c.shutdown());
}
