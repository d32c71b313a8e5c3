//! Verified core of a local editor-daemon multiplexer.
//!
//! A background server owns a set of long-lived editor sessions; thin clients
//! connect over a datagram-sequenced unix socket, exchange exactly one control
//! request/response pair, and either close or transition the socket into a
//! session-level dialog.  This crate holds the logic of that multiplexer: the
//! wire protocol and its canonical binary encoding, the detachable-channel
//! state machine, the server-side session registry and request dispatch, the
//! per-session state machine, the client-side decision logic, and the parsing
//! of the two command lines.  The surrounding process plumbing (sockets,
//! signals, task spawning, logging) lives outside and drives these functions
//! with plain values.

pub mod channel;
pub mod client;
pub mod client_args;
pub mod daemon_args;
pub mod codec;
pub mod proto;
pub mod server;
pub mod session;
pub mod text;

use vstd::prelude::*;

verus! {

/// Capacity of the per-connection scratch buffer: no wire message may exceed
/// this many bytes, and the framing is one message per datagram.
pub const MAX_MESSAGE: usize = 1024;

/// The two shutdown signals the daemon and the attached client listen for.
/// Both lead to the same cooperative teardown; the handler re-raises the
/// signal's default action afterwards so the shell sees the conventional
/// exit semantics.
#[derive(Copy, Clone, Debug, PartialEq, Eq, Structural)]
pub enum Signal {
    Interrupt,
    Terminate,
}

/// The log levels the `-v` runs select: each further `v` says more, from
/// warnings only up to tracing.
#[derive(Copy, Clone, Debug, PartialEq, Eq, Structural)]
pub enum LogLevel {
    Warn,
    Info,
    Debug,
    Trace,
}

/// The level a verbosity count selects.
pub fn verbosity_level(verbosity: u64) -> (r: LogLevel)
    ensures
        r == (if verbosity == 0 {
            LogLevel::Warn
        } else if verbosity == 1 {
            LogLevel::Info
        } else if verbosity == 2 {
            LogLevel::Debug
        } else {
            LogLevel::Trace
        }),
{
    if verbosity == 0 {
        LogLevel::Warn
    } else if verbosity == 1 {
        LogLevel::Info
    } else if verbosity == 2 {
        LogLevel::Debug
    } else {
        LogLevel::Trace
    }
}

/// Whether two byte strings hold the same bytes.
pub fn bytes_eq(a: &[u8], b: &[u8]) -> (r: bool)
    ensures
        r == (a@ == b@),
{
    if a.len() != b.len() {
        return false;
    }
    let mut i: usize = 0;
    while i < a.len()
        invariant
            i <= a@.len(),
            a@.len() == b@.len(),
            forall|j: int| 0 <= j < i ==> a@[j] == b@[j],
        decreases a@.len() - i,
    {
        if a[i] != b[i] {
            return false;
        }
        i += 1;
    }
    proof {
        assert(a@ =~= b@);
    }
    true
}

} // verus!
