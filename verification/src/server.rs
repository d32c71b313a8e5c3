//! The server: session registry and dispatch of control requests.
//!
//! The server's loop selects over signal arrivals, incoming connections and
//! session events, in that priority.  What it decides on each of those is
//! here, as functions from state and input to new state, response and owed
//! actions; accepting connections, reading datagrams and delivering events
//! stay outside and hand these functions plain values.
//!
//! Each accepted control connection produces exactly one [`Response`]
//! (structurally: a [`DispatchOutcome`] holds one) and is then closed, except
//! the one that transitions into the session phase — precisely when the
//! outcome's disposition is `StartSession` or `HandToSession`.
//!
//! The registry is kept in insertion order, which — session ids being
//! allocated monotonically — is ascending sid order; alias lookups resolve to
//! the first match in that order.

use vstd::prelude::*;

use crate::proto::{Request, Response, SessionId, SessionInfo, Str};
use crate::session::{SessionEvent, SessionEventKind, SessionHandle};

verus! {

/// Events sent by the server to a session task.  An attach request travels
/// together with the connection being handed over, which lives outside this
/// model.
#[derive(Copy, Clone, Debug, PartialEq, Eq, Structural)]
pub enum ServerEvent {
    RequestTermination { forced: bool },
    AttachRequest,
}

/// What becomes of a control connection after its one response.
#[derive(Copy, Clone, Debug, PartialEq, Eq, Structural)]
pub enum ConnDisposition {
    /// The connection is shut down.
    Close,
    /// The connection becomes the channel of the newly spawned session.
    StartSession(SessionId),
    /// The connection is handed to the existing session as a fresh peer.
    HandToSession(SessionId),
}

/// Everything one dispatched control request asks the surrounding loop to
/// do: the one response to send, the fate of the connection, and the
/// termination requests owed to session tasks.
#[derive(Debug, Clone, PartialEq, Eq)]
pub struct DispatchOutcome {
    pub response: Response,
    pub disposition: ConnDisposition,
    pub terminations: Vec<(SessionId, bool)>,
}

/// What handling one session event asks the loop to do: joining a finished
/// session task.
#[derive(Copy, Clone, Debug, PartialEq, Eq, Structural)]
pub struct EventOutcome {
    pub join: Option<SessionId>,
}

/// What handling a shutdown signal asks the loop to do: force-terminate and
/// join every session, remove the socket file, exit.
#[derive(Debug, Clone, PartialEq, Eq)]
pub struct SignalOutcome {
    pub terminations: Vec<(SessionId, bool)>,
    pub remove_socket: bool,
    pub exit_code: i32,
}

/// No session in `sessions` has this id.
pub open spec fn sid_free(sessions: Seq<SessionHandle>, sid: SessionId) -> bool {
    forall|i: int| 0 <= i < sessions.len() ==> sessions[i].sid != sid
}

/// `i` is the first (and, under [`Server::wf`], only) index with this id.
pub open spec fn first_sid_index(sessions: Seq<SessionHandle>, sid: SessionId, i: int) -> bool {
    &&& 0 <= i < sessions.len()
    &&& sessions[i].sid == sid
    &&& forall|j: int| 0 <= j < i ==> sessions[j].sid != sid
}

/// No session in `sessions` carries this alias.
pub open spec fn alias_free(sessions: Seq<SessionHandle>, alias: Seq<u8>) -> bool {
    forall|i: int| 0 <= i < sessions.len() ==> sessions[i].alias@ != alias
}

/// `i` is the first index whose alias matches: aliases need not be unique,
/// and lookups resolve to the first match in registry order.
pub open spec fn first_alias_index(sessions: Seq<SessionHandle>, alias: Seq<u8>, i: int) -> bool {
    &&& 0 <= i < sessions.len()
    &&& sessions[i].alias@ == alias
    &&& forall|j: int| 0 <= j < i ==> sessions[j].alias@ != alias
}

/// The server's state: the session-id allocator, the registry in insertion
/// order, and the run flag of the main loop.
#[derive(Debug, Clone, PartialEq, Eq)]
pub struct Server {
    pub next_sid: u64,
    pub sessions: Vec<SessionHandle>,
    pub run: bool,
}

impl Server {
    /// Registry well-formedness: ids are nonzero, never ahead of the
    /// allocator, and strictly ascending in registry order — so every id
    /// occurs at most once.
    pub open spec fn wf(&self) -> bool {
        &&& forall|i: int|
            0 <= i < self.sessions@.len() ==> 0 < #[trigger] self.sessions@[i].sid.0
                <= self.next_sid
        &&& forall|i: int, j: int|
            0 <= i < j < self.sessions@.len() ==> #[trigger] self.sessions@[i].sid.0
                < #[trigger] self.sessions@[j].sid.0
    }

    /// A fresh server: no sessions yet, ids start above zero, loop running.
    pub fn new() -> (s: Server)
        ensures
            s.next_sid == 0,
            s.sessions@.len() == 0,
            s.run,
            s.wf(),
    {
        Server { next_sid: 0, sessions: Vec::new(), run: true }
    }
}

/// Every record, the allocator and the run flag are as before.
pub open spec fn server_unchanged(pre: Server, post: Server) -> bool {
    &&& post.sessions@ == pre.sessions@
    &&& post.next_sid == pre.next_sid
    &&& post.run == pre.run
}

/// As `server_unchanged`, except that the record at index `i` is `h`.
pub open spec fn server_with_record(pre: Server, post: Server, i: int, h: SessionHandle) -> bool {
    &&& post.sessions@.len() == pre.sessions@.len()
    &&& forall|j: int| 0 <= j < pre.sessions@.len() && j != i ==> post.sessions@[j]
        == pre.sessions@[j]
    &&& post.sessions@[i] == h
    &&& post.next_sid == pre.next_sid
    &&& post.run == pre.run
}

/// What dispatching one control request means: the relation between the
/// server state before and after, the request, the wall clock, and the
/// outcome.  One arm per request variant; the executable dispatch is proved
/// to satisfy it, and the laws about allocation and connection fates are
/// proved from it.
pub open spec fn spec_handle_request(
    pre: Server,
    req: Request,
    now: u64,
    post: Server,
    out: DispatchOutcome,
) -> bool {
    match req {
        // Allocate the next sid, answer with it, spawn a session owning the
        // connection, append its record to the registry.
        Request::NewSession => {
            let sid = SessionId((pre.next_sid + 1) as u64);
            &&& out.response == Response::NewSession(sid)
            &&& out.disposition == ConnDisposition::StartSession(sid)
            &&& out.terminations@.len() == 0
            &&& post.next_sid == pre.next_sid + 1
            &&& post.run == pre.run
            &&& post.sessions@.len() == pre.sessions@.len() + 1
            &&& forall|j: int| 0 <= j < pre.sessions@.len() ==> post.sessions@[j]
                == pre.sessions@[j]
            &&& post.sessions@.last().sid == sid
            &&& post.sessions@.last().timestamp == now
            &&& post.sessions@.last().alias@ == Seq::<u8>::empty()
            &&& !post.sessions@.last().detached
        },
        // Attach to a known, detached session: answer with its sid and hand
        // the connection over; the record's detached flag is cleared by the
        // handoff.  A missing or occupied session is refused.
        Request::AttachSession(sid) => {
            if sid_free(pre.sessions@, sid) {
                &&& out.response == Response::Error
                &&& out.disposition == ConnDisposition::Close
                &&& out.terminations@.len() == 0
                &&& server_unchanged(pre, post)
            } else {
                exists|i: int|
                    #[trigger] first_sid_index(pre.sessions@, sid, i) && if !pre.sessions@[i].detached {
                        &&& out.response == Response::Error
                        &&& out.disposition == ConnDisposition::Close
                        &&& out.terminations@.len() == 0
                        &&& server_unchanged(pre, post)
                    } else {
                        &&& out.response == Response::NewSession(sid)
                        &&& out.disposition == ConnDisposition::HandToSession(sid)
                        &&& out.terminations@.len() == 0
                        &&& server_with_record(
                            pre,
                            post,
                            i,
                            (SessionHandle { detached: false, ..pre.sessions@[i] }),
                        )
                    }
            }
        },
        // As above, resolved to the first alias match in registry order.
        Request::AttachSessionByAlias(alias) => {
            if alias_free(pre.sessions@, alias@) {
                &&& out.response == Response::Error
                &&& out.disposition == ConnDisposition::Close
                &&& out.terminations@.len() == 0
                &&& server_unchanged(pre, post)
            } else {
                exists|i: int|
                    #[trigger] first_alias_index(pre.sessions@, alias@, i)
                        && if !pre.sessions@[i].detached {
                        &&& out.response == Response::Error
                        &&& out.disposition == ConnDisposition::Close
                        &&& out.terminations@.len() == 0
                        &&& server_unchanged(pre, post)
                    } else {
                        &&& out.response == Response::NewSession(pre.sessions@[i].sid)
                        &&& out.disposition == ConnDisposition::HandToSession(
                            pre.sessions@[i].sid,
                        )
                        &&& out.terminations@.len() == 0
                        &&& server_with_record(
                            pre,
                            post,
                            i,
                            (SessionHandle { detached: false, ..pre.sessions@[i] }),
                        )
                    }
            }
        },
        // Set the alias of a known session; aliases need not be unique.
        Request::AliasSession { sid, alias } => {
            if sid_free(pre.sessions@, sid) {
                &&& out.response == Response::Error
                &&& out.disposition == ConnDisposition::Close
                &&& out.terminations@.len() == 0
                &&& server_unchanged(pre, post)
            } else {
                exists|i: int|
                    #[trigger] first_sid_index(pre.sessions@, sid, i) && {
                        &&& out.response == Response::Okay
                        &&& out.disposition == ConnDisposition::Close
                        &&& out.terminations@.len() == 0
                        &&& server_with_record(
                            pre,
                            post,
                            i,
                            (SessionHandle { alias, ..pre.sessions@[i] }),
                        )
                    }
            }
        },
        // Snapshot the registry, in registry order.
        Request::ListSessions => {
            &&& out.response matches Response::ListSessions(rows) && {
                &&& rows@.len() == pre.sessions@.len()
                &&& forall|j: int| 0 <= j < rows@.len() ==> {
                    &&& (#[trigger] rows@[j]).sid == pre.sessions@[j].sid
                    &&& rows@[j].timestamp == pre.sessions@[j].timestamp
                    &&& rows@[j].alias@ == pre.sessions@[j].alias@
                }
            }
            &&& out.disposition == ConnDisposition::Close
            &&& out.terminations@.len() == 0
            &&& server_unchanged(pre, post)
        },
        // Ask the session to terminate.  The response acknowledges delivery
        // of the request, not completion: reaping happens later, on the
        // session's own `Terminated` event.
        Request::KillSession { sid, force } => {
            &&& (if sid_free(pre.sessions@, sid) {
                &&& out.response == Response::Error
                &&& out.terminations@.len() == 0
            } else {
                &&& out.response == Response::Okay
                &&& out.terminations@ =~= seq![(sid, force)]
            })
            &&& out.disposition == ConnDisposition::Close
            &&& server_unchanged(pre, post)
        },
        // As above, resolved to the first alias match in registry order.
        Request::KillSessionByAlias { alias, force } => {
            &&& (if alias_free(pre.sessions@, alias@) {
                &&& out.response == Response::Error
                &&& out.terminations@.len() == 0
            } else {
                exists|i: int|
                    #[trigger] first_alias_index(pre.sessions@, alias@, i) && {
                        &&& out.response == Response::Okay
                        &&& out.terminations@ =~= seq![(pre.sessions@[i].sid, force)]
                    }
            })
            &&& out.disposition == ConnDisposition::Close
            &&& server_unchanged(pre, post)
        },
        // Drain the registry, ask every session to terminate, acknowledge,
        // and clear the run flag: the main loop exits and removes the socket
        // file.
        Request::StopServer { force } => {
            &&& out.response == Response::Okay
            &&& out.disposition == ConnDisposition::Close
            &&& out.terminations@.len() == pre.sessions@.len()
            &&& forall|j: int| 0 <= j < pre.sessions@.len() ==> #[trigger] out.terminations@[j]
                == (pre.sessions@[j].sid, force)
            &&& post.sessions@.len() == 0
            &&& post.next_sid == pre.next_sid
            &&& !post.run
        },
    }
}

/// First index carrying `sid`, scanning the registry in its order.
fn find_sid(sessions: &Vec<SessionHandle>, sid: SessionId) -> (r: Option<usize>)
    ensures
        match r {
            Some(i) => first_sid_index(sessions@, sid, i as int),
            None => sid_free(sessions@, sid),
        },
{
    let mut i: usize = 0;
    while i < sessions.len()
        invariant
            i <= sessions@.len(),
            forall|j: int| 0 <= j < i ==> sessions@[j].sid != sid,
        decreases sessions@.len() - i,
    {
        if sessions[i].sid == sid {
            return Some(i);
        }
        i += 1;
    }
    None
}

/// First index whose alias matches, scanning the registry in its order.
fn find_alias(sessions: &Vec<SessionHandle>, alias: &Str) -> (r: Option<usize>)
    ensures
        match r {
            Some(i) => first_alias_index(sessions@, alias@, i as int),
            None => alias_free(sessions@, alias@),
        },
{
    let mut i: usize = 0;
    while i < sessions.len()
        invariant
            i <= sessions@.len(),
            forall|j: int| 0 <= j < i ==> sessions@[j].alias@ != alias@,
        decreases sessions@.len() - i,
    {
        if crate::bytes_eq(sessions[i].alias.as_slice(), alias.as_slice()) {
            return Some(i);
        }
        i += 1;
    }
    None
}

/// The reply to a kill request reflects whether the termination request was
/// delivered to the session task, not whether the session has terminated.
pub fn delivery_response(delivered: bool) -> (r: Response)
    ensures
        r == (if delivered {
            Response::Okay
        } else {
            Response::Error
        }),
{
    if delivered {
        Response::Okay
    } else {
        Response::Error
    }
}

impl Server {
    /// Dispatch one control request against the registry: the heart of
    /// connection handling.  The caller has already received the request on
    /// a fresh connection; it then sends `out.response` on it and performs
    /// what the outcome says.  Should sending the response fail, the caller
    /// drops the disposition (a session is not started or handed a dead
    /// connection) and closes; should a termination request not be
    /// deliverable, the caller answers with `delivery_response(false)`
    /// instead.
    pub fn handle_request(&mut self, req: Request, now: u64) -> (out: DispatchOutcome)
        requires
            old(self).wf(),
            old(self).next_sid < u64::MAX,
        ensures
            spec_handle_request(*old(self), req, now, *final(self), out),
            final(self).wf(),
            final(self).next_sid >= old(self).next_sid,
    {
        match req {
            Request::NewSession => {
                self.next_sid = self.next_sid + 1;
                let sid = SessionId(self.next_sid);
                self.sessions.push(
                    SessionHandle { sid, timestamp: now, alias: Vec::new(), detached: false },
                );
                DispatchOutcome {
                    response: Response::NewSession(sid),
                    disposition: ConnDisposition::StartSession(sid),
                    terminations: Vec::new(),
                }
            },
            Request::AttachSession(sid) => {
                match find_sid(&self.sessions, sid) {
                    None => DispatchOutcome {
                        response: Response::Error,
                        disposition: ConnDisposition::Close,
                        terminations: Vec::new(),
                    },
                    Some(i) => {
                        if !self.sessions[i].detached {
                            DispatchOutcome {
                                response: Response::Error,
                                disposition: ConnDisposition::Close,
                                terminations: Vec::new(),
                            }
                        } else {
                            let h = self.sessions.remove(i);
                            self.sessions.insert(i, SessionHandle { detached: false, ..h });
                            DispatchOutcome {
                                response: Response::NewSession(sid),
                                disposition: ConnDisposition::HandToSession(sid),
                                terminations: Vec::new(),
                            }
                        }
                    },
                }
            },
            Request::AttachSessionByAlias(alias) => {
                match find_alias(&self.sessions, &alias) {
                    None => DispatchOutcome {
                        response: Response::Error,
                        disposition: ConnDisposition::Close,
                        terminations: Vec::new(),
                    },
                    Some(i) => {
                        if !self.sessions[i].detached {
                            DispatchOutcome {
                                response: Response::Error,
                                disposition: ConnDisposition::Close,
                                terminations: Vec::new(),
                            }
                        } else {
                            let h = self.sessions.remove(i);
                            let sid = h.sid;
                            self.sessions.insert(i, SessionHandle { detached: false, ..h });
                            DispatchOutcome {
                                response: Response::NewSession(sid),
                                disposition: ConnDisposition::HandToSession(sid),
                                terminations: Vec::new(),
                            }
                        }
                    },
                }
            },
            Request::AliasSession { sid, alias } => {
                match find_sid(&self.sessions, sid) {
                    None => DispatchOutcome {
                        response: Response::Error,
                        disposition: ConnDisposition::Close,
                        terminations: Vec::new(),
                    },
                    Some(i) => {
                        let h = self.sessions.remove(i);
                        self.sessions.insert(i, SessionHandle { alias, ..h });
                        DispatchOutcome {
                            response: Response::Okay,
                            disposition: ConnDisposition::Close,
                            terminations: Vec::new(),
                        }
                    },
                }
            },
            Request::ListSessions => {
                let mut rows: Vec<SessionInfo> = Vec::new();
                let mut i: usize = 0;
                while i < self.sessions.len()
                    invariant
                        i <= self.sessions@.len(),
                        rows@.len() == i,
                        forall|j: int| 0 <= j < i ==> {
                            &&& (#[trigger] rows@[j]).sid == self.sessions@[j].sid
                            &&& rows@[j].timestamp == self.sessions@[j].timestamp
                            &&& rows@[j].alias@ == self.sessions@[j].alias@
                        },
                        *self == *old(self),
                    decreases self.sessions@.len() - i,
                {
                    let alias_copy = vstd::slice::slice_to_vec(self.sessions[i].alias.as_slice());
                    rows.push(
                        SessionInfo {
                            sid: self.sessions[i].sid,
                            timestamp: self.sessions[i].timestamp,
                            alias: alias_copy,
                        },
                    );
                    i += 1;
                }
                DispatchOutcome {
                    response: Response::ListSessions(rows),
                    disposition: ConnDisposition::Close,
                    terminations: Vec::new(),
                }
            },
            Request::KillSession { sid, force } => {
                match find_sid(&self.sessions, sid) {
                    None => DispatchOutcome {
                        response: Response::Error,
                        disposition: ConnDisposition::Close,
                        terminations: Vec::new(),
                    },
                    Some(_) => {
                        let mut terminations: Vec<(SessionId, bool)> = Vec::new();
                        terminations.push((sid, force));
                        DispatchOutcome {
                            response: Response::Okay,
                            disposition: ConnDisposition::Close,
                            terminations,
                        }
                    },
                }
            },
            Request::KillSessionByAlias { alias, force } => {
                match find_alias(&self.sessions, &alias) {
                    None => DispatchOutcome {
                        response: Response::Error,
                        disposition: ConnDisposition::Close,
                        terminations: Vec::new(),
                    },
                    Some(i) => {
                        let mut terminations: Vec<(SessionId, bool)> = Vec::new();
                        terminations.push((self.sessions[i].sid, force));
                        DispatchOutcome {
                            response: Response::Okay,
                            disposition: ConnDisposition::Close,
                            terminations,
                        }
                    },
                }
            },
            Request::StopServer { force } => {
                let mut terminations: Vec<(SessionId, bool)> = Vec::new();
                let mut i: usize = 0;
                while i < self.sessions.len()
                    invariant
                        i <= self.sessions@.len(),
                        terminations@.len() == i,
                        forall|j: int| 0 <= j < i ==> #[trigger] terminations@[j]
                            == (self.sessions@[j].sid, force),
                        *self == *old(self),
                    decreases self.sessions@.len() - i,
                {
                    terminations.push((self.sessions[i].sid, force));
                    i += 1;
                }
                self.sessions.clear();
                self.run = false;
                DispatchOutcome {
                    response: Response::Okay,
                    disposition: ConnDisposition::Close,
                    terminations,
                }
            },
        }
    }
}

/// What handling one session event means.  A `Terminated` event removes the
/// session's record, and its task is then joined; one referring to a session
/// no longer in the registry — possible after a stop drained it — is
/// tolerated and dropped.  A `ClientDetached` event marks the record
/// detached: the flag is a cache of session-reported state and is set
/// nowhere else.
pub open spec fn spec_handle_event(
    pre: Server,
    event: SessionEvent,
    post: Server,
    out: EventOutcome,
) -> bool {
    match event.kind {
        SessionEventKind::Terminated { expected } => {
            if sid_free(pre.sessions@, event.sid) {
                &&& server_unchanged(pre, post)
                &&& out.join is None
            } else {
                exists|i: int|
                    #[trigger] first_sid_index(pre.sessions@, event.sid, i) && {
                        &&& post.sessions@ == pre.sessions@.remove(i)
                        &&& post.next_sid == pre.next_sid
                        &&& post.run == pre.run
                        &&& out.join == Some(event.sid)
                    }
            }
        },
        SessionEventKind::ClientDetached => {
            &&& (if sid_free(pre.sessions@, event.sid) {
                server_unchanged(pre, post)
            } else {
                exists|i: int|
                    #[trigger] first_sid_index(pre.sessions@, event.sid, i)
                        && server_with_record(
                        pre,
                        post,
                        i,
                        (SessionHandle { detached: true, ..pre.sessions@[i] }),
                    )
            })
            &&& out.join is None
        },
    }
}

impl Server {
    /// Consume one event from a session task: reap a terminated session, or
    /// record a client detach.
    pub fn handle_event(&mut self, event: SessionEvent) -> (out: EventOutcome)
        requires
            old(self).wf(),
        ensures
            spec_handle_event(*old(self), event, *final(self), out),
            final(self).wf(),
            final(self).next_sid == old(self).next_sid,
            final(self).run == old(self).run,
    {
        match event.kind {
            SessionEventKind::Terminated { expected: _ } => {
                match find_sid(&self.sessions, event.sid) {
                    None => EventOutcome { join: None },
                    Some(i) => {
                        let _ = self.sessions.remove(i);
                        EventOutcome { join: Some(event.sid) }
                    },
                }
            },
            SessionEventKind::ClientDetached => {
                match find_sid(&self.sessions, event.sid) {
                    None => EventOutcome { join: None },
                    Some(i) => {
                        let h = self.sessions.remove(i);
                        self.sessions.insert(i, SessionHandle { detached: true, ..h });
                        EventOutcome { join: None }
                    },
                }
            },
        }
    }

    /// Graceful shutdown on an interrupt or termination signal: every
    /// session is asked to terminate forcedly and joined, the registry is
    /// drained, the socket file is removed, and the signal's default action
    /// is re-raised so the parent shell sees the conventional exit.
    pub fn handle_signal(&mut self, signal: crate::Signal) -> (out: SignalOutcome)
        requires
            old(self).wf(),
        ensures
            out.terminations@.len() == old(self).sessions@.len(),
            forall|j: int| 0 <= j < old(self).sessions@.len() ==> #[trigger] out.terminations@[j]
                == (old(self).sessions@[j].sid, true),
            out.remove_socket,
            out.exit_code == 0,
            final(self).sessions@.len() == 0,
            final(self).next_sid == old(self).next_sid,
            final(self).run == old(self).run,
            final(self).wf(),
    {
        match signal {
            crate::Signal::Interrupt | crate::Signal::Terminate => {
                let mut terminations: Vec<(SessionId, bool)> = Vec::new();
                let mut i: usize = 0;
                while i < self.sessions.len()
                    invariant
                        i <= self.sessions@.len(),
                        terminations@.len() == i,
                        forall|j: int| 0 <= j < i ==> #[trigger] terminations@[j]
                            == (self.sessions@[j].sid, true),
                        *self == *old(self),
                    decreases self.sessions@.len() - i,
                {
                    terminations.push((self.sessions[i].sid, true));
                    i += 1;
                }
                self.sessions.clear();
                SignalOutcome { terminations, remove_socket: true, exit_code: 0 }
            },
        }
    }
}

/// Session-id allocation is strictly monotonic and never zero: the id a
/// `NewSession` dispatch allocates is nonzero and strictly greater than
/// every id in the registry before it — and since no operation decreases
/// `next_sid`, greater than every id the daemon ever allocated.
pub proof fn lemma_sid_allocation_monotonic(
    pre: Server,
    now: u64,
    post: Server,
    out: DispatchOutcome,
)
    requires
        pre.wf(),
        pre.next_sid < u64::MAX,
        spec_handle_request(pre, Request::NewSession, now, post, out),
    ensures
        post.sessions@.last().sid.0 == pre.next_sid + 1,
        post.sessions@.last().sid.0 > 0,
        forall|i: int| 0 <= i < pre.sessions@.len() ==> #[trigger] pre.sessions@[i].sid.0
            < post.sessions@.last().sid.0,
        out.response == Response::NewSession(post.sessions@.last().sid),
{
}

/// Under well-formedness each session id occurs at most once: for every sid
/// in the registry there is exactly one record — the server-side half of the
/// one-record-per-live-task correspondence.
pub proof fn lemma_registry_sids_unique(s: Server, i: int, j: int)
    requires
        s.wf(),
        0 <= i < s.sessions@.len(),
        0 <= j < s.sessions@.len(),
        i != j,
    ensures
        s.sessions@[i].sid != s.sessions@[j].sid,
{
    if i < j {
        assert(s.sessions@[i].sid.0 < s.sessions@[j].sid.0);
    } else {
        assert(s.sessions@[j].sid.0 < s.sessions@[i].sid.0);
    }
}

/// The registry tracks the session tasks one for one: a dispatch grows the
/// registry exactly when its outcome starts a session task — by one record,
/// carrying the started task's sid, which no existing record carries — and
/// never grows it otherwise.  With `lemma_registry_sids_unique`, every sid
/// in the registry belongs to exactly one record and one started task.
pub proof fn lemma_registry_tracks_tasks(
    pre: Server,
    req: Request,
    now: u64,
    post: Server,
    out: DispatchOutcome,
)
    requires
        pre.wf(),
        spec_handle_request(pre, req, now, post, out),
    ensures
        match out.disposition {
            ConnDisposition::StartSession(sid) => {
                &&& post.sessions@.len() == pre.sessions@.len() + 1
                &&& post.sessions@.last().sid == sid
                &&& sid_free(pre.sessions@, sid)
            },
            _ => post.sessions@.len() <= pre.sessions@.len(),
        },
{
    match req {
        Request::NewSession => {
            let sid = SessionId((pre.next_sid + 1) as u64);
            if pre.next_sid < u64::MAX {
                assert forall|i: int| 0 <= i < pre.sessions@.len() implies pre.sessions@[i].sid
                    != sid by {
                    assert(pre.sessions@[i].sid.0 <= pre.next_sid);
                }
            }
        },
        Request::AttachSession(sid) => {
            if !sid_free(pre.sessions@, sid) {
                let i = choose|i: int|
                    #[trigger] first_sid_index(pre.sessions@, sid, i) && if !pre.sessions@[i].detached {
                        server_unchanged(pre, post)
                    } else {
                        server_with_record(
                            pre,
                            post,
                            i,
                            (SessionHandle { detached: false, ..pre.sessions@[i] }),
                        )
                    };
            }
        },
        Request::AttachSessionByAlias(alias) => {
            if !alias_free(pre.sessions@, alias@) {
                let i = choose|i: int|
                    #[trigger] first_alias_index(pre.sessions@, alias@, i)
                        && if !pre.sessions@[i].detached {
                        server_unchanged(pre, post)
                    } else {
                        server_with_record(
                            pre,
                            post,
                            i,
                            (SessionHandle { detached: false, ..pre.sessions@[i] }),
                        )
                    };
            }
        },
        Request::AliasSession { sid, alias } => {
            if !sid_free(pre.sessions@, sid) {
                let i = choose|i: int|
                    #[trigger] first_sid_index(pre.sessions@, sid, i) && server_with_record(
                        pre,
                        post,
                        i,
                        (SessionHandle { alias, ..pre.sessions@[i] }),
                    );
            }
        },
        _ => {},
    }
}

/// Every dispatched control request yields exactly one response (an outcome
/// carries exactly one), and the connection is closed afterwards except for
/// the one that transitions into the session phase: the connection stays
/// open precisely when the response is the session-start success
/// `NewSession(..)`.
pub proof fn lemma_connection_fate(
    pre: Server,
    req: Request,
    now: u64,
    post: Server,
    out: DispatchOutcome,
)
    requires
        spec_handle_request(pre, req, now, post, out),
    ensures
        out.disposition != ConnDisposition::Close <==> out.response matches Response::NewSession(
            _,
        ),
{
    match req {
        Request::AttachSession(sid) => {
            if !sid_free(pre.sessions@, sid) {
                let i = choose|i: int|
                    #[trigger] first_sid_index(pre.sessions@, sid, i) && if !pre.sessions@[i].detached {
                        &&& out.response == Response::Error
                        &&& out.disposition == ConnDisposition::Close
                        &&& out.terminations@.len() == 0
                        &&& server_unchanged(pre, post)
                    } else {
                        &&& out.response == Response::NewSession(sid)
                        &&& out.disposition == ConnDisposition::HandToSession(sid)
                        &&& out.terminations@.len() == 0
                        &&& server_with_record(
                            pre,
                            post,
                            i,
                            (SessionHandle { detached: false, ..pre.sessions@[i] }),
                        )
                    };
            }
        },
        Request::AttachSessionByAlias(alias) => {
            if !alias_free(pre.sessions@, alias@) {
                let i = choose|i: int|
                    #[trigger] first_alias_index(pre.sessions@, alias@, i)
                        && if !pre.sessions@[i].detached {
                        &&& out.response == Response::Error
                        &&& out.disposition == ConnDisposition::Close
                        &&& out.terminations@.len() == 0
                        &&& server_unchanged(pre, post)
                    } else {
                        &&& out.response == Response::NewSession(pre.sessions@[i].sid)
                        &&& out.disposition == ConnDisposition::HandToSession(
                            pre.sessions@[i].sid,
                        )
                        &&& out.terminations@.len() == 0
                        &&& server_with_record(
                            pre,
                            post,
                            i,
                            (SessionHandle { detached: false, ..pre.sessions@[i] }),
                        )
                    };
            }
        },
        Request::AliasSession { sid, alias } => {
            if !sid_free(pre.sessions@, sid) {
                let i = choose|i: int|
                    #[trigger] first_sid_index(pre.sessions@, sid, i) && {
                        &&& out.response == Response::Okay
                        &&& out.disposition == ConnDisposition::Close
                        &&& out.terminations@.len() == 0
                        &&& server_with_record(
                            pre,
                            post,
                            i,
                            (SessionHandle { alias, ..pre.sessions@[i] }),
                        )
                    };
            }
        },
        Request::KillSessionByAlias { alias, force } => {
            if !alias_free(pre.sessions@, alias@) {
                let i = choose|i: int|
                    #[trigger] first_alias_index(pre.sessions@, alias@, i) && {
                        &&& out.response == Response::Okay
                        &&& out.terminations@ =~= seq![(pre.sessions@[i].sid, force)]
                    };
            }
        },
        _ => {},
    }
}

} // verus!
