//! Non-blocking TCP server: lifecycle state and per-event decisions.
//!
//! The server owns a listening fd and is driven by a reactor: readiness on
//! the listening fd runs the accept loop, readiness on a client fd runs the
//! read path.  The socket work itself — bind, accept, fcntl, read, send,
//! close — happens outside this crate; each step hands its outcome to a
//! decision function here, whose contract pins down exactly what the server
//! does next: which fd to register and under which interest, when to deliver
//! bytes to the user's receive handler, and when to take the close path
//! (deregister, close, report the disconnect).

use crate::reactor::{EPOLLHUP, EPOLLIN, EPOLLRDHUP};
use vstd::prelude::*;

verus! {

/// Bytes of the stack buffer one read call fills.
pub const BUFFER_SIZE: usize = 1024;

/// What one accept call returned.
#[derive(Debug, PartialEq, Eq, Structural, Clone, Copy)]
pub enum AcceptOutcome {
    /// A client was accepted under this fd.
    Accepted(i32),
    /// Nothing to accept: the backlog is drained (or the wake was spurious).
    WouldBlock,
    /// The accept call failed with this errno.
    Failed(i32),
}

/// What the accept loop does with one accept outcome.
#[derive(Debug, PartialEq, Eq, Structural, Clone, Copy)]
pub enum AcceptStep {
    /// Make the fd non-blocking, register it under the given interest,
    /// report the new connection, and accept again.
    Register { fd: i32, interest: u32 },
    /// Leave the accept loop.
    Done,
}

/// What one read call on a client fd returned.
#[derive(Debug, PartialEq, Eq, Structural, Clone, Copy)]
pub enum ReadOutcome {
    /// This many bytes were read into the buffer.
    Data(usize),
    /// End of stream: the peer closed.
    Closed,
    /// Nothing to read right now.
    WouldBlock,
    /// The read call failed with this errno.
    Failed(i32),
}

/// What the server does after one readiness event on a client fd.
#[derive(Debug, PartialEq, Eq, Structural, Clone, Copy)]
pub struct ClientStep {
    /// Hand this many buffered bytes to the user's receive handler.
    pub deliver: Option<usize>,
    /// Take the close path: deregister the fd, close it, and report the
    /// disconnect.
    pub close: bool,
}

/// What happened to a connection, as reported to the connection handler.
#[derive(Debug, PartialEq, Eq, Structural, Clone, Copy)]
pub enum ConnectionEvent {
    /// A client was accepted under this fd.
    Connected(i32),
    /// The connection under this fd was closed.
    Disconnected(i32),
}

pub struct TcpServer {
    listen_fd: i32,
    started: bool,
    running: bool,
}

impl TcpServer {
    /// The listening socket's fd.
    pub closed spec fn spec_listen_fd(self) -> i32 {
        self.listen_fd
    }

    /// Whether the listening fd is registered with the reactor.
    pub closed spec fn spec_started(self) -> bool {
        self.started
    }

    /// Whether the server has been started and not yet stopped.
    pub closed spec fn spec_running(self) -> bool {
        self.running
    }

    /// A server over an already bound, non-blocking listening fd.
    pub fn new(listen_fd: i32) -> (s: TcpServer)
        ensures
            s.spec_listen_fd() == listen_fd,
            !s.spec_started(),
            !s.spec_running(),
    {
        TcpServer { listen_fd, started: false, running: false }
    }

    /// Starts the server: on the first call, the listening fd is to be
    /// registered with the reactor under read interest; repeated calls
    /// change nothing.
    pub fn start(&mut self) -> (reg: Option<(i32, u32)>)
        ensures
            final(self).spec_listen_fd() == old(self).spec_listen_fd(),
            final(self).spec_started(),
            final(self).spec_running(),
            match reg {
                Some(r) => !old(self).spec_started() && r == (
                    old(self).spec_listen_fd(),
                    EPOLLIN,
                ),
                None => old(self).spec_started(),
            },
    {
        if self.started {
            self.running = true;
            None
        } else {
            self.started = true;
            self.running = true;
            Some((self.listen_fd, EPOLLIN))
        }
    }

    /// Stops the server: on the first effective call, the listening fd is to
    /// be deregistered and the reactor asked to stop; repeated calls change
    /// nothing.
    pub fn stop(&mut self) -> (dereg: Option<i32>)
        ensures
            final(self).spec_listen_fd() == old(self).spec_listen_fd(),
            !final(self).spec_started(),
            !final(self).spec_running(),
            match dereg {
                Some(fd) => old(self).spec_started() && fd == old(self).spec_listen_fd(),
                None => !old(self).spec_started(),
            },
    {
        self.running = false;
        if self.started {
            self.started = false;
            Some(self.listen_fd)
        } else {
            None
        }
    }

    /// The listening socket's fd.
    pub fn listen_fd(&self) -> (fd: i32)
        ensures
            fd == self.spec_listen_fd(),
    {
        self.listen_fd
    }

    /// Whether a readiness event on the listening fd starts the accept loop.
    pub fn on_listener_event(&self, mask: u32) -> (accept: bool)
        ensures
            accept <==> mask & EPOLLIN != 0,
    {
        mask & EPOLLIN != 0
    }
}

/// One step of the accept loop.  An accepted client is registered under
/// read and peer-hangup interest and the loop continues, so a batch of
/// queued clients is drained; anything else ends the loop — a failure is
/// logged by the caller but never tears down the listener or the reactor.
pub fn on_accept_result(r: &AcceptOutcome) -> (step: AcceptStep)
    ensures
        match *r {
            AcceptOutcome::Accepted(fd) => step == (AcceptStep::Register {
                fd,
                interest: EPOLLIN | EPOLLRDHUP,
            }),
            AcceptOutcome::WouldBlock => step == AcceptStep::Done,
            AcceptOutcome::Failed(_) => step == AcceptStep::Done,
        },
{
    match *r {
        AcceptOutcome::Accepted(fd) => AcceptStep::Register { fd, interest: EPOLLIN | EPOLLRDHUP },
        AcceptOutcome::WouldBlock => AcceptStep::Done,
        AcceptOutcome::Failed(_) => AcceptStep::Done,
    }
}

/// The read-path decision for one readiness event on a client fd.  Bytes
/// read are delivered to the receive handler; end of stream, a read failure
/// other than would-block, or a hangup bit in the delivered mask takes the
/// close path.  `read` is the outcome of the read call made when the mask
/// has the read bit, and is ignored otherwise.
pub fn on_client_event(mask: u32, read: &ReadOutcome) -> (step: ClientStep)
    requires
        *read matches ReadOutcome::Data(n) ==> 0 < n <= BUFFER_SIZE,
    ensures
        step.deliver == (match *read {
            ReadOutcome::Data(n) => if mask & EPOLLIN != 0 {
                Some(n)
            } else {
                Option::<usize>::None
            },
            _ => Option::<usize>::None,
        }),
        step.close <==> ((mask & EPOLLIN != 0 && (*read == ReadOutcome::Closed || *read matches
        ReadOutcome::Failed(_))) || mask & (EPOLLRDHUP | EPOLLHUP) != 0),
{
    let mut deliver: Option<usize> = None;
    let mut close = false;
    if mask & EPOLLIN != 0 {
        match *read {
            ReadOutcome::Data(n) => {
                deliver = Some(n);
            },
            ReadOutcome::Closed => {
                close = true;
            },
            ReadOutcome::WouldBlock => {},
            ReadOutcome::Failed(_) => {
                close = true;
            },
        }
    }
    if mask & (EPOLLRDHUP | EPOLLHUP) != 0 {
        close = true;
    }
    ClientStep { deliver, close }
}

} // verus!
