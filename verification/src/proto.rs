//! Wire message types of the control and session protocols.
//!
//! A client opens a connection, sends exactly one [`Request`], and receives
//! exactly one [`Response`].  A connection that started a session (or attached
//! to one) then carries [`SessionRequest`] / [`SessionResponse`] messages
//! instead; no bytes are exchanged to signal the transition.
//!
//! Aliases travel on the wire as raw bytes; displaying them as text is the
//! caller's concern.  Each message type has a mathematical view (`RequestV`
//! and so on) over which the codec and the state machines state their
//! contracts.

use vstd::prelude::*;

verus! {

/// Identifier of a session: a nonzero 64-bit integer, assigned monotonically
/// by the server starting at 1 and never reused within a daemon lifetime.
/// (Nonzeroness is a property of server allocation, not of the type itself.)
#[derive(Copy, Clone, Debug, PartialEq, Eq, Structural, PartialOrd, Ord, Hash)]
pub struct SessionId(pub u64);

/// A short textual label for a session, carried as raw bytes.
pub type Str = Vec<u8>;

/// Control requests, client to server, before the session phase.
#[derive(Debug, Clone, PartialEq, Eq)]
pub enum Request {
    NewSession,
    AttachSession(SessionId),
    AttachSessionByAlias(Str),
    KillSession { sid: SessionId, force: bool },
    KillSessionByAlias { alias: Str, force: bool },
    AliasSession { sid: SessionId, alias: Str },
    ListSessions,
    StopServer { force: bool },
}

/// One row of a `ListSessions` reply: a session's id, its creation time
/// (server-local wall clock, in seconds since the epoch), and its alias.
#[derive(Debug, Clone, PartialEq, Eq)]
pub struct SessionInfo {
    pub sid: SessionId,
    pub timestamp: u64,
    pub alias: Str,
}

/// Control responses, server to client.  `NewSession` also answers a
/// successful attach, carrying the sid attached to.  `Error` is generic: the
/// server logs the reason but does not transmit it.
#[derive(Debug, Clone, PartialEq, Eq)]
pub enum Response {
    NewSession(SessionId),
    ListSessions(Vec<SessionInfo>),
    Okay,
    Error,
}

/// Session-phase messages, client to server.
#[derive(Copy, Clone, Debug, PartialEq, Eq, Structural)]
pub enum SessionRequest {
    Terminate,
    Detach,
}

/// Session-phase messages, server to client.  `Terminated(forced)` closes the
/// dialog; `Okay` and `Error` are placeholders for session-level extensions.
#[derive(Copy, Clone, Debug, PartialEq, Eq, Structural)]
pub enum SessionResponse {
    Terminated(bool),
    Error,
    Okay,
}

/// Mathematical view of a [`Request`].
pub enum RequestV {
    NewSession,
    AttachSession(SessionId),
    AttachSessionByAlias(Seq<u8>),
    KillSession { sid: SessionId, force: bool },
    KillSessionByAlias { alias: Seq<u8>, force: bool },
    AliasSession { sid: SessionId, alias: Seq<u8> },
    ListSessions,
    StopServer { force: bool },
}

/// Mathematical view of a [`SessionInfo`].
pub struct SessionInfoV {
    pub sid: SessionId,
    pub timestamp: u64,
    pub alias: Seq<u8>,
}

/// Mathematical view of a [`Response`].
pub enum ResponseV {
    NewSession(SessionId),
    ListSessions(Seq<SessionInfoV>),
    Okay,
    Error,
}

impl View for Request {
    type V = RequestV;

    open spec fn view(&self) -> RequestV {
        match self {
            Request::NewSession => RequestV::NewSession,
            Request::AttachSession(sid) => RequestV::AttachSession(*sid),
            Request::AttachSessionByAlias(alias) => RequestV::AttachSessionByAlias(alias@),
            Request::KillSession { sid, force } => RequestV::KillSession {
                sid: *sid,
                force: *force,
            },
            Request::KillSessionByAlias { alias, force } => RequestV::KillSessionByAlias {
                alias: alias@,
                force: *force,
            },
            Request::AliasSession { sid, alias } => RequestV::AliasSession {
                sid: *sid,
                alias: alias@,
            },
            Request::ListSessions => RequestV::ListSessions,
            Request::StopServer { force } => RequestV::StopServer { force: *force },
        }
    }
}

impl View for SessionInfo {
    type V = SessionInfoV;

    open spec fn view(&self) -> SessionInfoV {
        SessionInfoV { sid: self.sid, timestamp: self.timestamp, alias: self.alias@ }
    }
}

impl View for Response {
    type V = ResponseV;

    open spec fn view(&self) -> ResponseV {
        match self {
            Response::NewSession(sid) => ResponseV::NewSession(*sid),
            Response::ListSessions(rows) => ResponseV::ListSessions(
                rows@.map_values(|r: SessionInfo| r@),
            ),
            Response::Okay => ResponseV::Okay,
            Response::Error => ResponseV::Error,
        }
    }
}

} // verus!
