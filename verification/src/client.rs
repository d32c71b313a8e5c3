//! Client-side decision logic.
//!
//! A client connects, sends exactly one control request, and interprets the
//! one response: administrative commands then close, while `NewSession` — the
//! reply both to a new-session request and to a successful attach — carries
//! the sid and transitions the connection into the session phase.  The
//! interpreters here say exactly which responses are accepted where; the
//! session loop's decisions live on [`SessionClient`].  Connecting, sending
//! and receiving stay outside.

use vstd::prelude::*;

use crate::proto::{Response, SessionId, SessionInfo, SessionRequest, SessionResponse};
use crate::Signal;

verus! {

/// Why a client command failed.
#[derive(Copy, Clone, Debug, PartialEq, Eq, Structural)]
pub enum ClientError {
    /// The server replied `Error`: the request was refused; the reason is in
    /// the server log only.
    ServerError,
    /// A response variant the protocol does not allow for this request.
    UnexpectedResponse,
}

/// Interpret the reply to a new-session or attach request: `NewSession`
/// carries the sid the connection is now a session channel for.
pub fn interpret_session_response(rsp: &Response) -> (r: Result<SessionId, ClientError>)
    ensures
        match rsp {
            Response::NewSession(sid) => r == Ok::<SessionId, ClientError>(*sid),
            Response::Error => r == Err::<SessionId, ClientError>(ClientError::ServerError),
            _ => r == Err::<SessionId, ClientError>(ClientError::UnexpectedResponse),
        },
{
    match rsp {
        Response::NewSession(sid) => Ok(*sid),
        Response::Error => Err(ClientError::ServerError),
        _ => Err(ClientError::UnexpectedResponse),
    }
}

/// Interpret the reply to an alias or kill request: only `Okay` means done.
pub fn interpret_ack_response(rsp: &Response) -> (r: Result<(), ClientError>)
    ensures
        match rsp {
            Response::Okay => r == Ok::<(), ClientError>(()),
            Response::Error => r == Err::<(), ClientError>(ClientError::ServerError),
            _ => r == Err::<(), ClientError>(ClientError::UnexpectedResponse),
        },
{
    match rsp {
        Response::Okay => Ok(()),
        Response::Error => Err(ClientError::ServerError),
        _ => Err(ClientError::UnexpectedResponse),
    }
}

/// Interpret the reply to a list request: the rows, in registry order.
pub fn interpret_list_response(rsp: Response) -> (r: Result<Vec<SessionInfo>, ClientError>)
    ensures
        match rsp {
            Response::ListSessions(rows) => r == Ok::<Vec<SessionInfo>, ClientError>(rows),
            Response::Error => r == Err::<Vec<SessionInfo>, ClientError>(ClientError::ServerError),
            _ => r == Err::<Vec<SessionInfo>, ClientError>(ClientError::UnexpectedResponse),
        },
{
    match rsp {
        Response::ListSessions(rows) => Ok(rows),
        Response::Error => Err(ClientError::ServerError),
        _ => Err(ClientError::UnexpectedResponse),
    }
}

/// Interpret the reply to a stop request: the server acknowledges with
/// `Okay` before exiting; anything else — an `Error` included — is out of
/// protocol here.
pub fn interpret_stop_response(rsp: &Response) -> (r: Result<(), ClientError>)
    ensures
        match rsp {
            Response::Okay => r == Ok::<(), ClientError>(()),
            _ => r == Err::<(), ClientError>(ClientError::UnexpectedResponse),
        },
{
    match rsp {
        Response::Okay => Ok(()),
        _ => Err(ClientError::UnexpectedResponse),
    }
}

/// What one step of the client session loop asks the surrounding process to
/// do.
#[derive(Copy, Clone, Debug, PartialEq, Eq, Structural)]
pub struct ClientStep {
    /// Send this toward the server.
    pub send_server: Option<SessionRequest>,
    /// Re-raise this signal's default action, so the terminal sees the
    /// conventional exit semantics.
    pub reraise: Option<Signal>,
    /// Shut the socket down.
    pub shutdown_socket: bool,
    /// Stop the loop and exit the process with this status.
    pub exit_code: Option<i32>,
}

/// The attached client's session loop: its sid and run flag.  The loop
/// selects over signal arrivals and inbound session-phase messages, signals
/// strictly first.
#[derive(Copy, Clone, Debug, PartialEq, Eq, Structural)]
pub struct SessionClient {
    pub sid: SessionId,
    pub run: bool,
}

impl SessionClient {
    /// The loop state for a session just started or attached to.
    pub fn new(sid: SessionId) -> (c: Self)
        ensures
            c == (SessionClient { sid, run: true }),
    {
        SessionClient { sid, run: true }
    }

    /// An interrupt or termination signal: ask the server to terminate the
    /// session, then re-raise the signal's default action and exit 0.
    pub fn handle_signal(&mut self, signal: Signal) -> (step: ClientStep)
        requires
            old(self).run,
        ensures
            !final(self).run,
            final(self).sid == old(self).sid,
            step == (ClientStep {
                send_server: Some(SessionRequest::Terminate),
                reraise: Some(signal),
                shutdown_socket: false,
                exit_code: Some(0i32),
            }),
    {
        self.run = false;
        ClientStep {
            send_server: Some(SessionRequest::Terminate),
            reraise: Some(signal),
            shutdown_socket: false,
            exit_code: Some(0),
        }
    }

    /// An inbound session-phase message, or the wakeup sentinel (`None`):
    /// `Terminated(forced)` ends the loop with status 1 if forced and 0
    /// otherwise; `Okay` and `Error` are placeholders and do nothing; a
    /// wakeup only proves the loop alive.
    pub fn handle_response(&mut self, rsp: Option<SessionResponse>) -> (step: ClientStep)
        requires
            old(self).run,
        ensures
            final(self).sid == old(self).sid,
            match rsp {
                Some(SessionResponse::Terminated(forced)) => !final(self).run && step == (
                ClientStep {
                    send_server: None,
                    reraise: None,
                    shutdown_socket: true,
                    exit_code: Some(
                        if forced {
                            1i32
                        } else {
                            0i32
                        },
                    ),
                }),
                _ => *final(self) == *old(self) && step == (ClientStep {
                    send_server: None,
                    reraise: None,
                    shutdown_socket: false,
                    exit_code: None,
                }),
            },
    {
        match rsp {
            Some(SessionResponse::Terminated(forced)) => {
                let code = self.terminate(forced);
                ClientStep {
                    send_server: None,
                    reraise: None,
                    shutdown_socket: true,
                    exit_code: Some(code),
                }
            },
            _ => ClientStep {
                send_server: None,
                reraise: None,
                shutdown_socket: false,
                exit_code: None,
            },
        }
    }

    /// Detach from the session without ending it: tell the server, shut the
    /// socket, exit 0.  The session lives on and can be attached to again.
    pub fn detach(&mut self) -> (step: ClientStep)
        ensures
            !final(self).run,
            final(self).sid == old(self).sid,
            step == (ClientStep {
                send_server: Some(SessionRequest::Detach),
                reraise: None,
                shutdown_socket: true,
                exit_code: Some(0i32),
            }),
    {
        self.run = false;
        ClientStep {
            send_server: Some(SessionRequest::Detach),
            reraise: None,
            shutdown_socket: true,
            exit_code: Some(0),
        }
    }

    /// The exit status of a terminated session: 1 for a forced termination,
    /// 0 for a graceful one.
    pub fn terminate(&mut self, forced: bool) -> (code: i32)
        ensures
            !final(self).run,
            final(self).sid == old(self).sid,
            code == (if forced {
                1i32
            } else {
                0i32
            }),
    {
        self.run = false;
        if forced {
            1
        } else {
            0
        }
    }
}

} // verus!
