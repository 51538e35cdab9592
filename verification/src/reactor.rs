//! Event-loop core: the fd-to-handler registry and the dispatch decisions.
//!
//! A reactor owns a registry mapping each registered fd to its interest mask
//! and a handler tag, and a running flag that drives its event loop.  The
//! kernel-facing half of the loop — creating the epoll instance, issuing the
//! control calls, blocking in the wait call and running the callbacks a tag
//! names — lives outside this crate; it consults the registry and the
//! decision functions here, which are specified exactly:
//!
//! * registration fails on a duplicate fd and otherwise adds exactly one
//!   entry;
//! * removal erases the entry and nothing else, so a batch of pending events
//!   dispatched afterwards invokes nothing for that fd;
//! * a batch dispatch yields exactly one invocation per delivered event whose
//!   fd is registered, in delivery order, and none for any other fd;
//! * once the running flag is cleared, the loop polls no further.

use crate::assoc::{
    distinct_keys,
    lemma_seq_to_map_contains,
    lemma_seq_to_map_index,
    lemma_seq_to_map_push,
    lemma_seq_to_map_remove,
    seq_to_map,
};
use vstd::prelude::*;

verus! {

/// Readability interest / event bit, as Linux defines it.
pub const EPOLLIN: u32 = 0x001;

/// Peer-hangup event bit (the peer closed its write side).
pub const EPOLLRDHUP: u32 = 0x2000;

/// Hangup event bit.
pub const EPOLLHUP: u32 = 0x010;

/// Capacity of one event batch handed to dispatch.
pub const MAX_EVENTS: usize = 1024;

/// Milliseconds the event loop blocks per wait, so a stop request is
/// observed promptly.
pub const WAIT_TIMEOUT_MS: i32 = 100;

/// errno: interrupted by a signal; the wait is always retried.
pub const EINTR: i32 = 4;

/// errno: no such entry; tolerated when deregistering.
pub const ENOENT: i32 = 2;

/// errno: stale fd; tolerated when deregistering.
pub const EBADF: i32 = 9;

/// What a registration names, dispatched against tables kept by the caller.
#[derive(Clone, Copy, PartialEq, Eq, Structural, Debug)]
pub enum Handler {
    /// Accept loop of the listening socket of the server so numbered.
    AcceptListener { server_id: usize },
    /// Read loop of one accepted client of the server so numbered.
    ClientReader { server_id: usize, client_fd: i32 },
    /// A caller-registered callback, named by a token of the caller's table.
    Custom { token: u64 },
}

/// Registration errors.
#[derive(Debug, PartialEq, Eq, Structural)]
pub enum ReactorError {
    /// The fd is already registered.
    AlreadyRegistered,
}

pub struct Reactor {
    handlers: Vec<(i32, (u32, Handler))>,
    running: bool,
}

/// The invocations a batch of delivered events gives rise to: one per event
/// whose fd is registered, in delivery order, carrying the delivered mask
/// and the registered handler.
pub open spec fn spec_dispatch(m: Map<i32, (u32, Handler)>, evs: Seq<(i32, u32)>) -> Seq<
    (i32, u32, Handler),
>
    decreases evs.len(),
{
    if evs.len() == 0 {
        Seq::empty()
    } else {
        let prefix = spec_dispatch(m, evs.drop_last());
        let e = evs.last();
        if m.contains_key(e.0) {
            prefix.push((e.0, e.1, m[e.0].1))
        } else {
            prefix
        }
    }
}

/// How many events of a batch are for `fd`.
pub open spec fn count_events_for(evs: Seq<(i32, u32)>, fd: i32) -> int
    decreases evs.len(),
{
    if evs.len() == 0 {
        0
    } else {
        count_events_for(evs.drop_last(), fd) + if evs.last().0 == fd {
            1int
        } else {
            0int
        }
    }
}

/// How many invocations of a dispatch result are for `fd`.
pub open spec fn count_invocations_for(out: Seq<(i32, u32, Handler)>, fd: i32) -> int
    decreases out.len(),
{
    if out.len() == 0 {
        0
    } else {
        count_invocations_for(out.drop_last(), fd) + if out.last().0 == fd {
            1int
        } else {
            0int
        }
    }
}

impl Reactor {
    /// The registry entries, registration order.
    pub closed spec fn spec_entries(self) -> Seq<(i32, (u32, Handler))> {
        self.handlers@
    }

    /// The registry as a map from fd to interest mask and handler.
    pub open spec fn handler_map(self) -> Map<i32, (u32, Handler)> {
        seq_to_map(self.spec_entries())
    }

    /// Whether the event loop is (to keep) running.
    pub closed spec fn spec_running(self) -> bool {
        self.running
    }

    /// Every reachable reactor state has distinct registered fds.
    pub open spec fn wf(self) -> bool {
        distinct_keys(self.spec_entries())
    }

    /// A fresh reactor: nothing registered, loop not running.
    pub fn new() -> (r: Reactor)
        ensures
            r.wf(),
            r.spec_entries() == Seq::<(i32, (u32, Handler))>::empty(),
            !r.spec_running(),
    {
        Reactor { handlers: Vec::new(), running: false }
    }

    /// Index of the entry for `fd`, if any.
    fn find(&self, fd: i32) -> (r: Option<usize>)
        requires
            self.wf(),
        ensures
            match r {
                Some(i) => i < self.spec_entries().len() && self.spec_entries()[i as int].0 == fd,
                None => !self.handler_map().contains_key(fd),
            },
    {
        let n = self.handlers.len();
        let mut i: usize = 0;
        while i < n
            invariant
                n == self.spec_entries().len(),
                i <= n,
                forall|j: int| 0 <= j < i ==> (#[trigger] self.spec_entries()[j]).0 != fd,
            decreases n - i,
        {
            if self.handlers[i].0 == fd {
                return Some(i);
            }
            i = i + 1;
        }
        proof {
            lemma_seq_to_map_contains(self.spec_entries(), fd);
        }
        None
    }

    /// Registers `fd` with the given interest mask and handler.  Fails, and
    /// changes nothing, exactly when `fd` is already registered.
    pub fn add_handler(&mut self, fd: i32, events: u32, handler: Handler) -> (r: Result<
        (),
        ReactorError,
    >)
        requires
            old(self).wf(),
        ensures
            final(self).wf(),
            final(self).spec_running() == old(self).spec_running(),
            match r {
                Ok(()) => ({
                    &&& !old(self).handler_map().contains_key(fd)
                    &&& final(self).handler_map() == old(self).handler_map().insert(
                        fd,
                        (events, handler),
                    )
                    &&& final(self).spec_entries() == old(self).spec_entries().push(
                        (fd, (events, handler)),
                    )
                }),
                Err(ReactorError::AlreadyRegistered) => ({
                    &&& old(self).handler_map().contains_key(fd)
                    &&& *final(self) == *old(self)
                }),
            },
    {
        match self.find(fd) {
            Some(_) => {
                proof {
                    lemma_seq_to_map_contains(self.spec_entries(), fd);
                }
                Err(ReactorError::AlreadyRegistered)
            },
            None => {
                let ghost pre = self.spec_entries();
                self.handlers.push((fd, (events, handler)));
                proof {
                    lemma_seq_to_map_contains(pre, fd);
                    lemma_seq_to_map_push(pre, fd, (events, handler));
                    assert(forall|j: int| 0 <= j < pre.len() ==> (#[trigger] pre[j]).0 != fd);
                    assert(self.spec_entries().drop_last() =~= pre);
                }
                Ok(())
            },
        }
    }

    /// Deregisters `fd` and reports whether it was registered; an absent fd
    /// is tolerated and leaves the registry unchanged.
    pub fn remove_handler(&mut self, fd: i32) -> (was: bool)
        requires
            old(self).wf(),
        ensures
            final(self).wf(),
            final(self).spec_running() == old(self).spec_running(),
            was == old(self).handler_map().contains_key(fd),
            final(self).handler_map() == old(self).handler_map().remove(fd),
            !final(self).handler_map().contains_key(fd),
    {
        let r = match self.find(fd) {
            Some(i) => {
                let ghost pre = self.spec_entries();
                self.handlers.remove(i);
                proof {
                    lemma_seq_to_map_index(pre, i as int);
                    lemma_seq_to_map_remove(pre, i as int);
                }
                true
            },
            None => {
                proof {
                    assert(old(self).handler_map().remove(fd) =~= old(self).handler_map());
                }
                false
            },
        };
        proof {
            lemma_seq_to_map_contains(self.spec_entries(), fd);
        }
        r
    }

    /// Whether `fd` is registered.
    pub fn contains_handler(&self, fd: i32) -> (b: bool)
        requires
            self.wf(),
        ensures
            b == self.handler_map().contains_key(fd),
    {
        match self.find(fd) {
            Some(i) => {
                proof {
                    lemma_seq_to_map_index(self.spec_entries(), i as int);
                }
                true
            },
            None => false,
        }
    }

    /// The interest mask and handler registered for `fd`, if any.
    pub fn lookup(&self, fd: i32) -> (r: Option<(u32, Handler)>)
        requires
            self.wf(),
        ensures
            match r {
                Some(e) => self.handler_map().contains_key(fd) && e == self.handler_map()[fd],
                None => !self.handler_map().contains_key(fd),
            },
    {
        match self.find(fd) {
            Some(i) => {
                proof {
                    lemma_seq_to_map_index(self.spec_entries(), i as int);
                }
                Some(self.handlers[i].1)
            },
            None => None,
        }
    }

    /// Number of registered fds.
    pub fn handler_count(&self) -> (n: usize)
        ensures
            n == self.spec_entries().len(),
    {
        self.handlers.len()
    }

    /// Marks the event loop as running; the loop polls while this holds.
    pub fn begin_run(&mut self)
        requires
            old(self).wf(),
        ensures
            final(self).wf(),
            final(self).spec_running(),
            final(self).spec_entries() == old(self).spec_entries(),
    {
        self.running = true;
    }

    /// Requests shutdown: the loop observes the cleared flag on its next
    /// check and returns instead of polling again.
    pub fn stop(&mut self)
        requires
            old(self).wf(),
        ensures
            final(self).wf(),
            !final(self).spec_running(),
            final(self).spec_entries() == old(self).spec_entries(),
    {
        self.running = false;
    }

    /// Whether the loop should poll once more.
    pub fn is_running(&self) -> (b: bool)
        ensures
            b == self.spec_running(),
    {
        self.running
    }

    /// The invocations one delivered batch gives rise to, in delivery order:
    /// exactly one per event whose fd is currently registered, carrying the
    /// delivered mask and the registered handler; events for unregistered
    /// fds are silently dropped.
    pub fn dispatch_batch(&self, events: &Vec<(i32, u32)>) -> (out: Vec<(i32, u32, Handler)>)
        requires
            self.wf(),
        ensures
            out@ == spec_dispatch(self.handler_map(), events@),
    {
        let mut out: Vec<(i32, u32, Handler)> = Vec::new();
        let n = events.len();
        let mut i: usize = 0;
        while i < n
            invariant
                self.wf(),
                n == events@.len(),
                i <= n,
                out@ == spec_dispatch(self.handler_map(), events@.subrange(0, i as int)),
            decreases n - i,
        {
            let (fd, mask) = events[i];
            match self.lookup(fd) {
                Some(e) => {
                    out.push((fd, mask, e.1));
                },
                None => {},
            }
            proof {
                assert(events@.subrange(0, i + 1).drop_last() =~= events@.subrange(0, i as int));
                assert(events@.subrange(0, i + 1).last() == events@[i as int]);
            }
            i = i + 1;
        }
        proof {
            assert(events@.subrange(0, n as int) =~= events@);
        }
        out
    }
}

/// The wait call is retried exactly when it was interrupted by a signal;
/// any other failure aborts the event loop.
pub fn wait_retry(errno: i32) -> (retry: bool)
    ensures
        retry <==> errno == EINTR,
{
    errno == EINTR
}

/// A failed deregistration control call is tolerated exactly when the fd was
/// already closed or was never present; other errors propagate.
pub fn removal_tolerated(errno: i32) -> (tolerated: bool)
    ensures
        tolerated <==> errno == EBADF || errno == ENOENT,
{
    errno == EBADF || errno == ENOENT
}

/// Each delivered event for a registered fd produces exactly one invocation
/// of its handler, and events for unregistered fds produce none: the
/// invocation count for any fd equals its event count if it is registered
/// and zero otherwise.
pub proof fn lemma_dispatch_count(m: Map<i32, (u32, Handler)>, evs: Seq<(i32, u32)>, fd: i32)
    ensures
        count_invocations_for(spec_dispatch(m, evs), fd) == if m.contains_key(fd) {
            count_events_for(evs, fd)
        } else {
            0
        },
    decreases evs.len(),
{
    if evs.len() > 0 {
        lemma_dispatch_count(m, evs.drop_last(), fd);
        let out = spec_dispatch(m, evs);
        let e = evs.last();
        if m.contains_key(e.0) {
            assert(out.drop_last() =~= spec_dispatch(m, evs.drop_last()));
        }
    }
}

/// After a removal, a dispatch invokes nothing for the removed fd, even for
/// events already pending in the batch.
pub proof fn lemma_removed_fd_never_dispatched(
    m: Map<i32, (u32, Handler)>,
    evs: Seq<(i32, u32)>,
    fd: i32,
)
    requires
        !m.contains_key(fd),
    ensures
        forall|k: int|
            0 <= k < spec_dispatch(m, evs).len() ==> (#[trigger] spec_dispatch(m, evs)[k]).0 != fd,
    decreases evs.len(),
{
    if evs.len() > 0 {
        lemma_removed_fd_never_dispatched(m, evs.drop_last(), fd);
        let out = spec_dispatch(m, evs);
        let prefix = spec_dispatch(m, evs.drop_last());
        let e = evs.last();
        if m.contains_key(e.0) {
            assert(forall|k: int| 0 <= k < prefix.len() ==> out[k] == prefix[k]);
            assert(out.last().0 == e.0);
        }
    }
}

} // verus!
