//! The receiver's per-frame decision: what the reading task does
//! with each frame it takes off the wire.
//!
//! The surrounding task reads one frame, feeds it here, and acts on
//! the outcome: it discards a too-short frame and reads on, waits
//! when the limiter has no permit free, or spawns the decided
//! dispatch under the permit this step reserved. Reserving the permit
//! and deciding the dispatch are one call under one exclusive borrow
//! of the limiter, so no second request can interleave between the
//! readiness check and the dispatch.

use vstd::prelude::*;

use crate::frame::{Flow, FlowMessage, Frame, NetAddress, Peer};
use crate::limits::{RequestLimiter, MAX_REQUESTS};
use crate::router::{RequestRouter, RouteDecision};

verus! {

/// What the reading task does with one frame.
pub enum ReceiverStep {
    /// Payload below the header minimum: log, discard, read on; the
    /// connection survives.
    Discard,
    /// No request permit is free: wait for one and retry; nothing has
    /// changed.
    Backpressure,
    /// One permit is reserved and the message is routed: run the
    /// decided dispatch under that permit.
    Dispatched(FlowMessage, RouteDecision),
}

/// Decide one receiver iteration for a frame read from `peer`: check
/// the payload minimum, reserve a request permit, envelope the frame
/// as coming in from the peer, and route it by the dispatch rule.
pub fn receiver_step(
    router: &mut RequestRouter,
    limiter: &mut RequestLimiter,
    peer: NetAddress,
    frame: Frame,
) -> (r: ReceiverStep)
    requires
        old(router).wf(),
        old(limiter).wf(),
    ensures
        final(router).wf(),
        final(limiter).wf(),
        final(router).handlers == old(router).handlers,
        !frame@.long_enough() ==> (r matches ReceiverStep::Discard
            && *final(router) == *old(router) && *final(limiter) == *old(limiter)),
        frame@.long_enough() && old(limiter).in_flight == MAX_REQUESTS ==> (r
            matches ReceiverStep::Backpressure && *final(router) == *old(router)
            && *final(limiter) == *old(limiter)),
        frame@.long_enough() && old(limiter).in_flight < MAX_REQUESTS ==> {
            &&& r matches ReceiverStep::Dispatched(m, d) ==> {
                &&& m.frame@ == frame@
                &&& m.wf()
                &&& m.flow.src == Peer::Remote(peer)
                &&& m.flow.dst == Peer::Local(None)
                &&& d == old(router).spec_route_decision(frame@.token)
            }
            &&& r is Dispatched
            &&& final(limiter).in_flight == old(limiter).in_flight + 1
        },
{
    let message = match FlowMessage::new(
        Flow { src: Peer::Remote(peer), dst: Peer::Local(None) },
        frame,
    ) {
        Ok(m) => m,
        Err(_) => {
            return ReceiverStep::Discard;
        },
    };
    if !limiter.try_admit() {
        return ReceiverStep::Backpressure;
    }
    let decision = router.route(message.frame.token);
    ReceiverStep::Dispatched(message, decision)
}

} // verus!
