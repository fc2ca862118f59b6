//! Admission control: the process-wide connection semaphore and the
//! per-connection request limiter.
//!
//! A connection is accepted only under a connection permit, of which
//! there are MAX_CONNECTIONS; each connection dispatches a handler
//! only under a request permit, of which it has MAX_REQUESTS. Permit
//! accounting is a single state transition per operation, so checking
//! readiness and dispatching cannot interleave with another dispatch
//! on the same limiter: the caller holds the limiter exclusively for
//! the one call.

use vstd::prelude::*;

verus! {

/// Process-wide cap on live connections.
pub const MAX_CONNECTIONS: usize = 250;

/// Per-connection cap on in-flight request handlers.
pub const MAX_REQUESTS: usize = 500;

/// The process-wide connection semaphore, as permit accounting.
pub struct ConnectionLimiter {
    pub live: usize,
}

impl ConnectionLimiter {
    /// The semaphore's invariant: never more live connections than
    /// permits.
    pub open spec fn wf(self) -> bool {
        self.live <= MAX_CONNECTIONS
    }

    /// No connections yet.
    pub fn new() -> (r: ConnectionLimiter)
        ensures
            r.wf(),
            r.live == 0,
    {
        ConnectionLimiter { live: 0 }
    }

    /// Take one connection permit if any is free: accounting for an
    /// accept or an outbound connect.
    pub fn try_acquire(&mut self) -> (got: bool)
        requires
            old(self).wf(),
        ensures
            final(self).wf(),
            got <==> old(self).live < MAX_CONNECTIONS,
            got ==> final(self).live == old(self).live + 1,
            !got ==> *final(self) == *old(self),
    {
        if self.live < MAX_CONNECTIONS {
            self.live = self.live + 1;
            true
        } else {
            false
        }
    }

    /// Give a permit back: the connection's receiver has exited.
    pub fn release(&mut self)
        requires
            old(self).wf(),
            old(self).live > 0,
        ensures
            final(self).wf(),
            final(self).live == old(self).live - 1,
    {
        self.live = self.live - 1;
    }
}

/// One connection's request limiter, as permit accounting. Readiness
/// and dispatch are one atomic step: `try_admit` both polls and
/// takes the permit.
pub struct RequestLimiter {
    pub in_flight: usize,
}

impl RequestLimiter {
    /// The limiter's invariant: never more in-flight handlers than
    /// permits.
    pub open spec fn wf(self) -> bool {
        self.in_flight <= MAX_REQUESTS
    }

    /// No requests in flight yet.
    pub fn new() -> (r: RequestLimiter)
        ensures
            r.wf(),
            r.in_flight == 0,
    {
        RequestLimiter { in_flight: 0 }
    }

    /// Atomically poll readiness and reserve the permit for one
    /// dispatch; no second request can slip in between the two.
    pub fn try_admit(&mut self) -> (got: bool)
        requires
            old(self).wf(),
        ensures
            final(self).wf(),
            got <==> old(self).in_flight < MAX_REQUESTS,
            got ==> final(self).in_flight == old(self).in_flight + 1,
            !got ==> *final(self) == *old(self),
    {
        if self.in_flight < MAX_REQUESTS {
            self.in_flight = self.in_flight + 1;
            true
        } else {
            false
        }
    }

    /// A handler finished: its permit returns.
    pub fn finish(&mut self)
        requires
            old(self).wf(),
            old(self).in_flight > 0,
        ensures
            final(self).wf(),
            final(self).in_flight == old(self).in_flight - 1,
    {
        self.in_flight = self.in_flight - 1;
    }
}

/// At any instant, live connections stay within MAX_CONNECTIONS and a
/// connection's in-flight handlers stay within MAX_REQUESTS: every
/// reachable limiter state is bounded, because construction
/// establishes the invariant and each operation preserves it.
pub proof fn lemma_admission_bounds(c: ConnectionLimiter, r: RequestLimiter)
    requires
        c.wf(),
        r.wf(),
    ensures
        c.live <= MAX_CONNECTIONS,
        r.in_flight <= MAX_REQUESTS,
{
}

} // verus!
