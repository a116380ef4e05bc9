//! What passes between the relay engine and the loop that drives it: the
//! driver carries out one action at a time and reports what came of it.

use crate::drain::Io;
use crate::nat_table::Endpoint;
use crate::shutdown::Shutdown;
use vstd::prelude::*;

verus! {

/// Token of the listening socket.
pub const SERVER_VAL: usize = 0;

/// Token of the wakeup handle.
pub const NOTIFY_VAL: usize = 1;

/// Whether `fd` is one of the two tokens that no flow may use.
pub open spec fn reserved(fd: usize) -> bool {
    fd == SERVER_VAL || fd == NOTIFY_VAL
}

/// What the poller reports of one socket.
#[derive(Clone, Copy, Debug, PartialEq, Eq, Structural)]
pub struct Readiness {
    pub readable: bool,
    pub writable: bool,
    pub read_closed: bool,
    pub write_closed: bool,
}

/// What came of the action that the engine asked for last.
#[derive(Debug)]
pub enum Event {
    /// The poller returned; `stopped` is the stop flag as read right after.
    Polled { stopped: bool },
    /// The next readiness event of the batch.
    Ready { token: usize, readiness: Readiness },
    /// The batch holds no further readiness event.
    Drained,
    /// The listener accepted a connection: its handle, and the peer's
    /// address unless that is an IPv6 one.
    Accepted { fd: usize, peer: Option<Endpoint> },
    /// What the NAT table holds for the address asked about.
    Target(Option<Endpoint>),
    /// The outbound connection stands: its handle.
    Connected { fd: usize },
    /// The outcome of a socket call that may block or fail.
    Io(Io),
    /// The action was carried out and there is nothing to report.
    Done,
}

/// What the engine asks its driver to do next.
#[derive(Clone, Copy, Debug, PartialEq, Eq, Structural)]
pub enum Action {
    /// Wait for readiness events, without a time limit.
    Poll,
    /// Hand over the next readiness event of the batch.
    Next,
    /// Give up any connection that is still being set up, and accept the
    /// next one from the listener.
    Accept,
    /// Look `peer` up in the NAT table.
    Lookup { peer: Endpoint },
    /// Open a connection to `target` from local port `src_port` if that
    /// port can be had, from any port otherwise, within three seconds.
    Connect { src_port: u16, target: Endpoint },
    /// Register the socket with the poller, under its handle as token, for
    /// reading and writing.
    Register { fd: usize },
    /// Keep the two sockets that were set up: they now form a flow.
    Adopt { src_fd: usize, dest_fd: usize },
    /// Read at most `max` bytes from the socket.
    Read { fd: usize, max: usize },
    /// Write the bytes on offer to the socket.
    Write { fd: usize },
    /// Shut one or both halves of the socket down; failure is ignored.
    Shutdown { fd: usize, how: Shutdown },
    /// The flow is over: deregister both sockets, flush and drop them.
    Close { src_fd: usize, dest_fd: usize },
    /// Leave the loop: the engine was stopped.
    Exit,
    /// Leave the loop with the poller's error.
    Abort,
}

/// Where the handling of a readiness event goes on after a shutdown.
#[derive(Clone, Copy, Debug, PartialEq, Eq, Structural)]
pub enum Stage {
    Writable,
    ReadClosed,
    WriteClosed,
    Finish,
}

/// What the engine is waiting for.
#[derive(Clone, Copy, Debug, PartialEq, Eq, Structural)]
pub enum Phase {
    /// For the poller to return.
    Polling,
    /// For the next readiness event of the batch.
    Draining,
    /// For the listener's next connection.
    Accepting,
    /// For the NAT table's answer about the peer of an accepted socket.
    Resolving { src_fd: usize, peer: Endpoint },
    /// For the outbound connection of an accepted socket.
    Connecting { src_fd: usize, src_port: u16, target: Endpoint },
    /// For the accepted socket's registration.
    RegisteringSrc { src_fd: usize, dest_fd: usize },
    /// For the connected socket's registration.
    RegisteringDest { src_fd: usize, dest_fd: usize },
    /// For the driver to take the new flow's sockets over.
    Adopting { src_fd: usize, dest_fd: usize },
    /// For a read of at most `max` bytes, or for an inline write, in a
    /// read-drain: the first one of the event, or the one that follows a
    /// write-drain of a full buffer.
    Reading { follow_up: bool, max: usize },
    /// For a write of the write-drain; `was_full` tells whether the buffer
    /// was at capacity when the drain began.
    Flushing { was_full: bool },
    /// For a shutdown, after which the handling goes on at `next`.
    Shutting { fd: usize, how: Shutdown, next: Stage },
    /// For the driver to close a flow's sockets.
    Closing { src_fd: usize, dest_fd: usize },
    /// For nothing: the engine has ended, cleanly or not.
    Stopped { clean: bool },
}

/// The readiness event that is being handled: the socket it fired on, that
/// socket's peer, the key of the flow, and what was reported.
#[derive(Clone, Copy, Debug, PartialEq, Eq, Structural)]
pub struct Ctx {
    pub index: usize,
    pub peer: usize,
    pub src_index: usize,
    pub readiness: Readiness,
}

} // verus!
