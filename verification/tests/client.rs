use helix_daemon::client::{
    interpret_ack_response, interpret_list_response, interpret_session_response,
    interpret_stop_response, ClientError, SessionClient,
};
use helix_daemon::proto::{Response, SessionId, SessionRequest, SessionResponse};
use helix_daemon::Signal;

#[test]
fn session_response_interpretation() {
    assert_eq!(
        interpret_session_response(&Response::NewSession(SessionId(4))),
        Ok(SessionId(4))
    );
    assert_eq!(interpret_session_response(&Response::Error), Err(ClientError::ServerError));
    assert_eq!(
        interpret_session_response(&Response::Okay),
        Err(ClientError::UnexpectedResponse)
    );
}

#[test]
fn ack_response_interpretation() {
    assert_eq!(interpret_ack_response(&Response::Okay), Ok(()));
    assert_eq!(interpret_ack_response(&Response::Error), Err(ClientError::ServerError));
    assert_eq!(
        interpret_ack_response(&Response::NewSession(SessionId(1))),
        Err(ClientError::UnexpectedResponse)
    );
}

#[test]
fn list_response_interpretation() {
    assert_eq!(interpret_list_response(Response::ListSessions(vec![])), Ok(vec![]));
    assert_eq!(
        interpret_list_response(Response::Error),
        Err(ClientError::ServerError)
    );
    assert_eq!(
        interpret_list_response(Response::Okay),
        Err(ClientError::UnexpectedResponse)
    );
}

#[test]
fn stop_response_interpretation() {
    assert_eq!(interpret_stop_response(&Response::Okay), Ok(()));
    // a stop reply admits no refusal: even `Error` is out of protocol
    assert_eq!(interpret_stop_response(&Response::Error), Err(ClientError::UnexpectedResponse));
}

#[test]
fn signal_terminates_and_reraises() {
    let mut client = SessionClient::new(SessionId(2));
    let step = client.handle_signal(Signal::Terminate);
    assert_eq!(step.send_server, Some(SessionRequest::Terminate));
    assert_eq!(step.reraise, Some(Signal::Terminate));
    assert_eq!(step.exit_code, Some(0));
    assert!(!client.run);
}

#[test]
fn terminated_maps_to_exit_status() {
    let mut client = SessionClient::new(SessionId(1));
    let step = client.handle_response(Some(SessionResponse::Terminated(true)));
    assert!(step.shutdown_socket);
    assert_eq!(step.exit_code, Some(1));
    let mut client = SessionClient::new(SessionId(1));
    let step = client.handle_response(Some(SessionResponse::Terminated(false)));
    assert_eq!(step.exit_code, Some(0));
}

#[test]
fn placeholders_and_wakeups_do_nothing() {
    let mut client = SessionClient::new(SessionId(1));
    for rsp in [Some(SessionResponse::Okay), Some(SessionResponse::Error), None] {
        let step = client.handle_response(rsp);
        assert_eq!(step.exit_code, None);
        assert!(!step.shutdown_socket);
        assert!(client.run);
    }
}

#[test]
fn detach_leaves_the_session_running_remotely() {
    let mut client = SessionClient::new(SessionId(3));
    let step = client.detach();
    assert_eq!(step.send_server, Some(SessionRequest::Detach));
    assert!(step.shutdown_socket);
    assert_eq!(step.exit_code, Some(0));
}
