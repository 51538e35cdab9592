//! Bounded pool of connection handles with FIFO reuse.
//!
//! The pool tracks which connections are queued for reuse and how many exist
//! in total; the cap `max_connections` bounds the number ever created, so the
//! number outstanding (acquired but not released) can never exceed it.
//! Acquisition is a three-way decision: reuse the oldest queued connection,
//! reserve a slot and have the caller construct a fresh one, or report
//! saturation so the caller can wait for a release.

use vstd::prelude::*;

verus! {

/// An opaque handle to one pooled connection; its identity is the fd value.
pub struct Connection {
    fd: i32,
}

impl Connection {
    /// The fd this handle stands for.
    pub closed spec fn spec_fd(self) -> i32 {
        self.fd
    }

    pub fn new(fd: i32) -> (c: Connection)
        ensures
            c.spec_fd() == fd,
    {
        Connection { fd }
    }

    pub fn fd(&self) -> (fd: i32)
        ensures
            fd == self.spec_fd(),
    {
        self.fd
    }
}

/// What one atomic acquisition step decided.
pub enum AcquireOutcome {
    /// The oldest queued connection was handed back out.
    Reused(Connection),
    /// Nothing was queued and the cap is not reached: a creation slot has
    /// been reserved; the caller runs the factory and owns the result, or
    /// calls `creation_failed` to give the slot back.
    StartCreate,
    /// Nothing is queued and the cap is reached: the caller must wait for a
    /// release and retry.
    Saturated,
}

pub struct ConnectionPool {
    max_connections: usize,
    available: Vec<Connection>,
    total_created: usize,
}

impl ConnectionPool {
    /// Cap on the number of connections that may ever exist at once.
    pub closed spec fn spec_max(self) -> usize {
        self.max_connections
    }

    /// The queue of released connections, front first.
    pub closed spec fn spec_available(self) -> Seq<Connection> {
        self.available@
    }

    /// Connections in existence: outstanding ones plus the queued ones.
    pub closed spec fn spec_total(self) -> usize {
        self.total_created
    }

    /// Connections currently acquired and not yet released.
    pub open spec fn outstanding(self) -> int {
        self.spec_total() - self.spec_available().len()
    }

    /// Every reachable pool state satisfies this.
    pub open spec fn wf(self) -> bool {
        &&& self.spec_available().len() <= self.spec_total()
        &&& self.spec_total() <= self.spec_max()
    }

    /// Relation between the pool before and after `get_connection` returned `r`.
    pub open spec fn acquire_post(pre: Self, post: Self, r: AcquireOutcome) -> bool {
        &&& post.spec_max() == pre.spec_max()
        &&& match r {
            AcquireOutcome::Reused(c) => {
                &&& pre.spec_available().len() > 0
                &&& c == pre.spec_available()[0]
                &&& post.spec_available() == pre.spec_available().drop_first()
                &&& post.spec_total() == pre.spec_total()
            },
            AcquireOutcome::StartCreate => {
                &&& pre.spec_available().len() == 0
                &&& pre.spec_total() < pre.spec_max()
                &&& post.spec_available() == pre.spec_available()
                &&& post.spec_total() == pre.spec_total() + 1
            },
            AcquireOutcome::Saturated => {
                &&& pre.spec_available().len() == 0
                &&& pre.spec_total() == pre.spec_max()
                &&& post == pre
            },
        }
    }

    /// Relation between the pool before and after `release_connection(c)`.
    pub open spec fn release_post(pre: Self, post: Self, c: Connection) -> bool {
        &&& post.spec_max() == pre.spec_max()
        &&& post.spec_total() == pre.spec_total()
        &&& post.spec_available() == pre.spec_available().push(c)
    }

    /// Stores the cap; no connections are created eagerly.
    pub fn new(max_connections: usize) -> (p: ConnectionPool)
        ensures
            p.wf(),
            p.spec_max() == max_connections,
            p.spec_available() == Seq::<Connection>::empty(),
            p.spec_total() == 0,
    {
        ConnectionPool { max_connections, available: Vec::new(), total_created: 0 }
    }

    /// One atomic acquisition step: reuse the front of the queue, reserve a
    /// creation slot while under the cap, or report saturation.
    pub fn get_connection(&mut self) -> (r: AcquireOutcome)
        requires
            old(self).wf(),
        ensures
            final(self).wf(),
            Self::acquire_post(*old(self), *final(self), r),
    {
        if self.available.len() > 0 {
            let c = self.available.remove(0);
            AcquireOutcome::Reused(c)
        } else if self.total_created < self.max_connections {
            self.total_created = self.total_created + 1;
            AcquireOutcome::StartCreate
        } else {
            AcquireOutcome::Saturated
        }
    }

    /// Gives back the slot reserved by a `StartCreate` outcome whose factory
    /// failed, so the failure does not count against the cap.
    pub fn creation_failed(&mut self)
        requires
            old(self).wf(),
            old(self).outstanding() > 0,
        ensures
            final(self).wf(),
            final(self).spec_max() == old(self).spec_max(),
            final(self).spec_available() == old(self).spec_available(),
            final(self).spec_total() == old(self).spec_total() - 1,
    {
        self.total_created = self.total_created - 1;
    }

    /// Connections currently acquired and not yet released.
    pub fn outstanding_count(&self) -> (n: usize)
        requires
            self.wf(),
        ensures
            n == self.outstanding(),
    {
        self.total_created - self.available.len()
    }

    /// Queues a previously acquired connection for reuse at the back, so
    /// release order equals reuse order.
    pub fn release_connection(&mut self, conn: Connection)
        requires
            old(self).wf(),
            old(self).outstanding() > 0,
        ensures
            final(self).wf(),
            Self::release_post(*old(self), *final(self), conn),
    {
        self.available.push(conn);
    }
}

/// In every reachable pool state the number of outstanding connections is
/// bounded by the cap, whatever interleaving of acquisitions and releases
/// produced the state.
pub proof fn lemma_outstanding_bounded(p: ConnectionPool)
    requires
        p.wf(),
    ensures
        0 <= p.outstanding() <= p.spec_max(),
{
}

/// Releasing a connection unblocks exactly the next acquisition: after any
/// release, an acquisition step cannot report saturation or demand a fresh
/// connection — it reuses a queued one.  If the queue was empty before the
/// release, it reuses precisely the connection just released.
pub proof fn lemma_release_unblocks(
    pre: ConnectionPool,
    mid: ConnectionPool,
    post: ConnectionPool,
    c: Connection,
    r: AcquireOutcome,
)
    requires
        pre.wf(),
        pre.outstanding() > 0,
        ConnectionPool::release_post(pre, mid, c),
        ConnectionPool::acquire_post(mid, post, r),
    ensures
        r is Reused,
        pre.spec_available().len() == 0 ==> r == AcquireOutcome::Reused(c),
{
    assert(mid.spec_available().len() > 0);
    if pre.spec_available().len() == 0 {
        assert(mid.spec_available()[0] == c);
    }
}

} // verus!
