//! The per-session state machine and the server's per-session record.
//!
//! A session is a long-lived task owning a detachable channel toward its
//! (possibly absent) client.  Its loop reacts to two sources: events from the
//! server and inbound session-phase messages from the client.  The decisions
//! of that loop stand here as step functions from state and input to new
//! state and actions; the surrounding task performs the actions (socket
//! sends, event deliveries) outside.
//!
//! The terminate protocol: compute `expected` from the reason, send
//! `Terminated(!expected)` toward the client best-effort, shut the channel
//! down, emit exactly one `Terminated { expected }` event toward the server,
//! and stop.  That the event is emitted exactly once over a session's
//! lifetime is proved at the bottom of the module.

use vstd::prelude::*;

use crate::channel::{spec_attach, spec_detach, spec_on_peer_closed, DetachableChannel, PeerClose};
use crate::proto::{SessionId, SessionRequest, SessionResponse};
use crate::server::ServerEvent;

verus! {

/// Events reported by a session toward the server.
#[derive(Copy, Clone, Debug, PartialEq, Eq, Structural)]
pub struct SessionEvent {
    pub sid: SessionId,
    pub kind: SessionEventKind,
}

/// The kinds of [`SessionEvent`] the server can receive.
#[derive(Copy, Clone, Debug, PartialEq, Eq, Structural)]
pub enum SessionEventKind {
    /// The session stopped; `expected` is false for a forced termination or
    /// an unexpected client disconnect.
    Terminated { expected: bool },
    /// The client detached; the session lives on without a peer.
    ClientDetached,
}

/// What the session's channel yielded: one arm of the session loop's select.
#[derive(Copy, Clone, Debug, PartialEq, Eq, Structural)]
pub enum ClientInbound {
    /// A session-phase message arrived from the client.
    Message(SessionRequest),
    /// The client closed its end of the connection.
    Closed,
    /// A receive on a detached channel woke up because a new peer attached.
    Wakeup,
}

/// One input to the session loop, from either of its two sources.
#[derive(Copy, Clone, Debug, PartialEq, Eq, Structural)]
pub enum SessionInput {
    FromServer(ServerEvent),
    FromClient(ClientInbound),
}

/// How the session loop ended.
#[derive(Copy, Clone, Debug, PartialEq, Eq, Structural)]
pub enum SessionExit {
    /// Graceful: an unforced termination request or a client `Terminate`.
    Expected,
    /// A forced termination request or an unexpected client disconnect.
    Unexpected,
}

/// The actions a session step asks its surrounding task to perform.
#[derive(Copy, Clone, Debug, PartialEq, Eq, Structural)]
pub struct SessionStep {
    /// Send this toward the client, best effort: the client may be gone.
    pub send_client: Option<SessionResponse>,
    /// Deliver this event to the server.
    pub emit: Option<SessionEventKind>,
    /// Close the socket of the session's own channel.
    pub close_socket: bool,
    /// Close the connection offered by a rejected attach request.
    pub reject_offered: bool,
    /// Stop the loop, with this exit.
    pub exit: Option<SessionExit>,
}

impl SessionStep {
    /// A step with no actions: the loop just continues.
    pub open spec fn none() -> SessionStep {
        SessionStep {
            send_client: None,
            emit: None,
            close_socket: false,
            reject_offered: false,
            exit: None,
        }
    }
}

/// The session task's own state: its id, the automaton of its client
/// channel, and whether its loop is still running.
#[derive(Copy, Clone, Debug, PartialEq, Eq, Structural)]
pub struct Session {
    pub sid: SessionId,
    pub channel: DetachableChannel,
    pub run: bool,
}

/// State and actions of the terminate protocol with the given verdict.
pub open spec fn spec_terminate(s: Session, expected: bool) -> (Session, SessionStep) {
    (
        Session {
            sid: s.sid,
            channel: DetachableChannel { attached: false, detaching: true },
            run: false,
        },
        SessionStep {
            send_client: Some(SessionResponse::Terminated(!expected)),
            emit: Some(SessionEventKind::Terminated { expected }),
            close_socket: s.channel.attached,
            reject_offered: false,
            exit: Some(
                if expected {
                    SessionExit::Expected
                } else {
                    SessionExit::Unexpected
                },
            ),
        },
    )
}

/// One step of the session loop on one input.
pub open spec fn spec_session_step(s: Session, input: SessionInput) -> (Session, SessionStep) {
    match input {
        SessionInput::FromServer(ServerEvent::RequestTermination { forced }) => spec_terminate(
            s,
            !forced,
        ),
        SessionInput::FromServer(ServerEvent::AttachRequest) => {
            if s.channel.attached {
                (s, SessionStep { reject_offered: true, ..SessionStep::none() })
            } else {
                (Session { channel: spec_attach(s.channel), ..s }, SessionStep::none())
            }
        },
        SessionInput::FromClient(ClientInbound::Message(SessionRequest::Terminate)) => {
            spec_terminate(s, true)
        },
        SessionInput::FromClient(ClientInbound::Message(SessionRequest::Detach)) => {
            (
                Session { channel: spec_detach(s.channel), ..s },
                SessionStep { emit: Some(SessionEventKind::ClientDetached), ..SessionStep::none() },
            )
        },
        SessionInput::FromClient(ClientInbound::Closed) => {
            if !s.channel.attached {
                // A close can only be observed on an attached channel.
                (s, SessionStep::none())
            } else if spec_on_peer_closed(s.channel).1 == PeerClose::ExpectedDetach {
                (Session { channel: spec_on_peer_closed(s.channel).0, ..s }, SessionStep::none())
            } else {
                spec_terminate(
                    Session { channel: spec_on_peer_closed(s.channel).0, ..s },
                    false,
                )
            }
        },
        SessionInput::FromClient(ClientInbound::Wakeup) => (s, SessionStep::none()),
    }
}

impl Session {
    /// A fresh session task state around an attached client channel, paired
    /// with the server-side record for it.  The caller spawns the loop.
    pub fn spawn(sid: SessionId, channel: DetachableChannel, now: u64) -> (r: (
        Session,
        SessionHandle,
    ))
        ensures
            r.0 == (Session { sid, channel, run: true }),
            r.1.sid == sid,
            r.1.timestamp == now,
            r.1.alias@ == Seq::<u8>::empty(),
            !r.1.detached,
    {
        let session = Session { sid, channel, run: true };
        let handle = SessionHandle { sid, timestamp: now, alias: Vec::new(), detached: false };
        (session, handle)
    }

    /// React to one event from the server: a termination request ends the
    /// loop through the terminate protocol; an attach request grafts the
    /// offered connection onto the channel, unless one is already attached,
    /// in which case the offered connection is rejected and closed.
    pub fn handle_event(&mut self, event: ServerEvent) -> (step: SessionStep)
        requires
            old(self).run,
        ensures
            (*final(self), step) == spec_session_step(
                *old(self),
                SessionInput::FromServer(event),
            ),
    {
        match event {
            ServerEvent::RequestTermination { forced } => self.terminate(!forced),
            ServerEvent::AttachRequest => {
                if self.channel.is_attached() {
                    SessionStep {
                        send_client: None,
                        emit: None,
                        close_socket: false,
                        reject_offered: true,
                        exit: None,
                    }
                } else {
                    let _ = self.channel.attach();
                    SessionStep {
                        send_client: None,
                        emit: None,
                        close_socket: false,
                        reject_offered: false,
                        exit: None,
                    }
                }
            },
        }
    }

    /// React to one inbound item from the client channel: `Terminate` ends
    /// the loop gracefully; `Detach` arms the channel and notifies the
    /// server; a close completes a detach or, unannounced, ends the loop as
    /// unexpected; a wakeup only proves the loop alive again.
    pub fn handle_request(&mut self, inbound: ClientInbound) -> (step: SessionStep)
        requires
            old(self).run,
        ensures
            (*final(self), step) == spec_session_step(
                *old(self),
                SessionInput::FromClient(inbound),
            ),
    {
        match inbound {
            ClientInbound::Message(SessionRequest::Terminate) => self.terminate(true),
            ClientInbound::Message(SessionRequest::Detach) => {
                self.channel.detach();
                SessionStep {
                    send_client: None,
                    emit: Some(SessionEventKind::ClientDetached),
                    close_socket: false,
                    reject_offered: false,
                    exit: None,
                }
            },
            ClientInbound::Closed => {
                if self.channel.is_attached() {
                    match self.channel.on_peer_closed() {
                        PeerClose::ExpectedDetach => SessionStep {
                            send_client: None,
                            emit: None,
                            close_socket: false,
                            reject_offered: false,
                            exit: None,
                        },
                        PeerClose::UnexpectedDisconnect => self.terminate(false),
                    }
                } else {
                    SessionStep {
                        send_client: None,
                        emit: None,
                        close_socket: false,
                        reject_offered: false,
                        exit: None,
                    }
                }
            },
            ClientInbound::Wakeup => SessionStep {
                send_client: None,
                emit: None,
                close_socket: false,
                reject_offered: false,
                exit: None,
            },
        }
    }

    /// The terminate protocol: announce `Terminated(!expected)` toward the
    /// client best-effort, shut the channel down, emit the one `Terminated`
    /// event toward the server, and stop the loop.
    pub fn terminate(&mut self, expected: bool) -> (step: SessionStep)
        requires
            old(self).run,
        ensures
            (*final(self), step) == spec_terminate(*old(self), expected),
    {
        let send_client = Some(SessionResponse::Terminated(!expected));
        self.channel.detach();
        let close_socket = self.channel.shutdown();
        self.run = false;
        SessionStep {
            send_client,
            emit: Some(SessionEventKind::Terminated { expected }),
            close_socket,
            reject_offered: false,
            exit: Some(
                if expected {
                    SessionExit::Expected
                } else {
                    SessionExit::Unexpected
                },
            ),
        }
    }
}

/// The server-side record of a live session: its id, creation timestamp,
/// alias, and the server's cached knowledge of whether the session currently
/// has no attached client.  The live socket is owned by the session task,
/// not by this record.
#[derive(Debug, Clone, PartialEq, Eq)]
pub struct SessionHandle {
    pub sid: SessionId,
    pub timestamp: u64,
    pub alias: crate::proto::Str,
    pub detached: bool,
}

impl SessionHandle {
    /// Whether the session is known to have no attached client.
    pub fn is_detached(&self) -> (r: bool)
        ensures
            r == self.detached,
    {
        self.detached
    }

    /// The session's creation time, in seconds since the epoch.
    pub fn timestamp(&self) -> (r: u64)
        ensures
            r == self.timestamp,
    {
        self.timestamp
    }

    /// The session's alias; empty until one is assigned.
    pub fn alias(&self) -> (r: &crate::proto::Str)
        ensures
            r@ == self.alias@,
    {
        &self.alias
    }

    /// Assign the session's alias.  Aliases need not be unique.
    pub fn set_alias(&mut self, alias: crate::proto::Str)
        ensures
            *final(self) == (SessionHandle { alias, ..*old(self) }),
    {
        self.alias = alias;
    }

    /// Record the session's reported attachment state.
    pub fn set_detached(&mut self, detached: bool)
        ensures
            *final(self) == (SessionHandle { detached, ..*old(self) }),
    {
        self.detached = detached;
    }
}

/// The session state reached by feeding `inputs` to `s`, stepping only while
/// the loop runs.
pub open spec fn spec_run_session(s: Session, inputs: Seq<SessionInput>) -> Session
    decreases inputs.len(),
{
    if inputs.len() == 0 || !s.run {
        s
    } else {
        spec_run_session(spec_session_step(s, inputs[0]).0, inputs.skip(1))
    }
}

/// How many `Terminated` events are emitted while feeding `inputs` to `s`.
pub open spec fn spec_terminated_emissions(s: Session, inputs: Seq<SessionInput>) -> nat
    decreases inputs.len(),
{
    if inputs.len() == 0 || !s.run {
        0
    } else {
        (match spec_session_step(s, inputs[0]).1.emit {
            Some(SessionEventKind::Terminated { .. }) => 1 as nat,
            _ => 0 as nat,
        }) + spec_terminated_emissions(spec_session_step(s, inputs[0]).0, inputs.skip(1))
    }
}

/// A single step emits a `Terminated` event exactly when it stops the loop.
pub proof fn lemma_step_terminated_iff_stops(s: Session, input: SessionInput)
    requires
        s.run,
    ensures
        (spec_session_step(s, input).1.emit matches Some(SessionEventKind::Terminated { .. }))
            <==> !spec_session_step(s, input).0.run,
{
}

/// Over any run of its loop, a session emits at most one `Terminated` event
/// toward the server — and exactly one iff the loop has stopped by the end.
/// Together with the step lemma above this is the whole lifecycle: the event
/// comes with the stop, and a stopped session never speaks again.
pub proof fn lemma_one_terminated_per_lifetime(s: Session, inputs: Seq<SessionInput>)
    requires
        s.run,
    ensures
        spec_terminated_emissions(s, inputs) <= 1,
        spec_terminated_emissions(s, inputs) == 1 <==> !spec_run_session(s, inputs).run,
    decreases inputs.len(),
{
    if inputs.len() == 0 {
    } else {
        let (s1, step) = spec_session_step(s, inputs[0]);
        lemma_step_terminated_iff_stops(s, inputs[0]);
        if s1.run {
            lemma_one_terminated_per_lifetime(s1, inputs.skip(1));
        } else {
            lemma_stopped_session_stays_silent(s1, inputs.skip(1));
        }
    }
}

/// A session whose loop has stopped takes no further steps: it emits nothing
/// and its state no longer changes.
pub proof fn lemma_stopped_session_stays_silent(s: Session, inputs: Seq<SessionInput>)
    requires
        !s.run,
    ensures
        spec_terminated_emissions(s, inputs) == 0,
        spec_run_session(s, inputs) == s,
{
}

} // verus!
