//! State machine of a detachable message channel.
//!
//! A session's connection to its client may come and go: the client can
//! detach (closing its socket) without ending the session, and a later client
//! may be grafted onto the same session.  The automaton here tracks that
//! lifecycle; the socket itself, and the bytes on it, live outside.
//!
//! The state is a pair of flags: whether a peer connection is currently
//! attached, and whether a detach has been initiated (`detaching`).  The
//! detach protocol: either side initiates with [`DetachableChannel::detach`];
//! the local side then awaits the remote close, which — because `detaching`
//! is set — is interpreted as an expected detach rather than an unexpected
//! disconnect.
//!
//! Each operation has a spec-level transition function (`spec_detach` and so
//! on); the executable methods are proved to follow them, and the detach /
//! reattach law at the bottom is stated over them.

use vstd::prelude::*;

verus! {

/// How a peer's close of the connection is to be interpreted.
#[derive(Copy, Clone, Debug, PartialEq, Eq, Structural)]
pub enum PeerClose {
    /// The close follows an initiated detach: the channel goes on living
    /// without a peer.
    ExpectedDetach,
    /// The peer closed while `detaching` was false: a failure.
    UnexpectedDisconnect,
}

/// Failure of an operation on a detachable channel.
#[derive(Copy, Clone, Debug, PartialEq, Eq, Structural)]
pub enum ChannelError {
    /// `attach` on a channel that already has a peer.
    Occupied,
    /// `send` on a channel that has no peer.
    Detached,
}

/// The detachable-channel automaton: at most one peer connection at a time,
/// plus the flag that arms the next peer close as an expected detach.
#[derive(Copy, Clone, Debug, PartialEq, Eq, Structural)]
pub struct DetachableChannel {
    pub attached: bool,
    pub detaching: bool,
}

/// State after `detach`: the peer, if any, stays; the next close is armed.
pub open spec fn spec_detach(c: DetachableChannel) -> DetachableChannel {
    DetachableChannel { attached: c.attached, detaching: true }
}

/// State and verdict after the peer closes: the peer is gone, the arming
/// flag is consumed, and the close was expected iff the flag was set.
pub open spec fn spec_on_peer_closed(c: DetachableChannel) -> (DetachableChannel, PeerClose) {
    (
        DetachableChannel { attached: false, detaching: false },
        if c.detaching {
            PeerClose::ExpectedDetach
        } else {
            PeerClose::UnexpectedDisconnect
        },
    )
}

/// State after a successful `attach`: a fresh peer carries messages again.
pub open spec fn spec_attach(c: DetachableChannel) -> DetachableChannel {
    DetachableChannel { attached: true, detaching: c.detaching }
}

impl DetachableChannel {
    /// A channel created around a live peer connection.
    pub fn new_attached() -> (c: Self)
        ensures
            c == (DetachableChannel { attached: true, detaching: false }),
    {
        DetachableChannel { attached: true, detaching: false }
    }

    /// Whether a peer connection is currently attached.
    pub fn is_attached(&self) -> (r: bool)
        ensures
            r == self.attached,
    {
        self.attached
    }

    /// Whether a message can be sent: sends fail on a detached channel.
    pub fn can_send(&self) -> (r: bool)
        ensures
            r == self.attached,
    {
        self.attached
    }

    /// Mark the channel to be detached.  The peer connection is not closed;
    /// the peer is expected to close first, and that close will then be read
    /// as an expected detach.
    pub fn detach(&mut self)
        ensures
            *final(self) == spec_detach(*old(self)),
    {
        self.detaching = true;
    }

    /// Accept a fresh peer connection: succeeds iff currently detached.  On
    /// `Occupied` the state is unchanged and the caller must close the
    /// offered connection; the current peer is not disturbed.
    pub fn attach(&mut self) -> (r: Result<(), ChannelError>)
        ensures
            old(self).attached ==> r == Err::<(), ChannelError>(ChannelError::Occupied)
                && *final(self) == *old(self),
            !old(self).attached ==> r == Ok::<(), ChannelError>(())
                && *final(self) == spec_attach(*old(self)),
    {
        if self.attached {
            Err(ChannelError::Occupied)
        } else {
            self.attached = true;
            Ok(())
        }
    }

    /// Record that the peer closed the connection.  The close completes an
    /// initiated detach, or is an unexpected disconnect if none was.  Either
    /// way the channel is left without a peer and with `detaching` cleared.
    pub fn on_peer_closed(&mut self) -> (r: PeerClose)
        requires
            old(self).attached,
        ensures
            (*final(self), r) == spec_on_peer_closed(*old(self)),
    {
        self.attached = false;
        if self.detaching {
            self.detaching = false;
            PeerClose::ExpectedDetach
        } else {
            PeerClose::UnexpectedDisconnect
        }
    }

    /// Shut the channel down: drop the peer connection if one is attached.
    /// Returns whether a connection was attached, in which case the caller
    /// closes the underlying socket.
    pub fn shutdown(&mut self) -> (had_peer: bool)
        ensures
            !final(self).attached,
            final(self).detaching == (old(self).attached || old(self).detaching),
            had_peer == old(self).attached,
    {
        if self.attached {
            self.attached = false;
            self.detaching = true;
            true
        } else {
            false
        }
    }
}

/// After a successful detach — `detach`, then the peer's armed close — the
/// channel is detached but alive, a subsequent `attach` succeeds, and the
/// channel carries messages again exactly as a freshly attached one does.
pub proof fn lemma_detach_then_reattach(c: DetachableChannel)
    requires
        c.attached,
    ensures
        spec_on_peer_closed(spec_detach(c)).1 == PeerClose::ExpectedDetach,
        !spec_on_peer_closed(spec_detach(c)).0.attached,
        spec_attach(spec_on_peer_closed(spec_detach(c)).0) == (DetachableChannel {
            attached: true,
            detaching: false,
        }),
{
}

} // verus!
