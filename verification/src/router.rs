//! The request router: token-directed dispatch of inbound messages,
//! and the pending-reply table that correlates replies with the
//! requests that await them.
//!
//! A well-known token goes to its registered handler, or is answered
//! with EndpointNotFound when none is registered. An ephemeral token
//! is looked up in the pending-reply table: a hit delivers the frame
//! to the waiting one-shot sink and removes the entry; a miss is
//! answered with EndpointNotFound. The table never holds a well-known
//! token, and never holds a token twice.

use vstd::prelude::*;

use crate::codec::spec_token_bytes;
use crate::errors::FlowError;
use crate::frame::{Flow, FlowMessage, Frame};
use crate::uid::{UID, WLTOKEN};

verus! {

/// The parsed schema header of a payload: the 32-bit file identifier
/// that selects the payload's schema.
#[derive(Clone, Copy, Debug, PartialEq, Eq, Structural)]
pub struct ParsedFileIdentifier {
    pub file_identifier: u32,
}

/// An inbound request: a frame together with its parsed schema
/// header.
pub struct FlowRequest {
    pub frame: Frame,
    pub parsed_file_identifier: ParsedFileIdentifier,
}

/// A handler's reply: the frame to send back.
pub struct FlowResponse {
    pub frame: Frame,
}

impl FlowRequest {
    /// The cached header matches the payload bytes.
    pub open spec fn wf(self) -> bool {
        self.frame@.long_enough() && self.parsed_file_identifier.file_identifier
            == self.frame@.spec_file_identifier()
    }

    /// Wrap a validated frame as a request, caching its parsed
    /// header; a payload too short for the header is refused.
    pub fn new(frame: Frame) -> (r: Result<FlowRequest, FlowError>)
        ensures
            r is Ok <==> frame@.long_enough(),
            r matches Ok(q) ==> q.frame@ == frame@ && q.wf(),
            r is Err ==> r == Err::<FlowRequest, FlowError>(FlowError::FrameTooShort),
    {
        let file_identifier = match frame.peek_file_identifier() {
            Ok(id) => id,
            Err(e) => {
                return Err(e);
            },
        };
        Ok(FlowRequest { frame, parsed_file_identifier: ParsedFileIdentifier { file_identifier } })
    }
}

/// The process-wide map from ephemeral reply token to its waiting
/// one-shot sink. The sinks live with the tasks that wait on them,
/// keyed by the same token; the table records which tokens wait.
pub struct PendingTable {
    pub entries: Vec<UID>,
}

impl PendingTable {
    /// The tokens that currently await a reply.
    pub open spec fn spec_keys(self) -> Seq<UID> {
        self.entries@
    }

    /// The token has an entry.
    pub open spec fn spec_contains(self, u: UID) -> bool {
        exists|i: int| 0 <= i < self.spec_keys().len() && self.spec_keys()[i] == u
    }

    /// The table's invariant: at most one entry per token, and no
    /// token from the well-known range.
    pub open spec fn wf(self) -> bool {
        &&& forall|i: int, j: int|
            0 <= i < j < self.spec_keys().len() ==> self.spec_keys()[i] != self.spec_keys()[j]
        &&& forall|i: int|
            0 <= i < self.spec_keys().len() ==> !(#[trigger] self.spec_keys()[i]).spec_is_well_known()
    }

    /// An empty table.
    pub fn new() -> (r: PendingTable)
        ensures
            r.wf(),
            r.spec_keys().len() == 0,
    {
        PendingTable { entries: Vec::new() }
    }

    /// How many tokens wait.
    pub fn len(&self) -> (r: usize)
        ensures
            r == self.spec_keys().len(),
    {
        self.entries.len()
    }

    /// Whether a token has an entry.
    pub fn contains(&self, u: &UID) -> (r: bool)
        ensures
            r == self.spec_contains(*u),
    {
        let n = self.entries.len();
        let mut i: usize = 0;
        while i < n
            invariant
                i <= n,
                n == self.entries@.len(),
                forall|k: int| 0 <= k < i ==> self.entries@[k] != *u,
            decreases n - i,
        {
            let e = &self.entries[i];
            if e.first == u.first && e.second == u.second {
                proof {
                    assert(self.spec_keys()[i as int] == *u);
                }
                return true;
            }
            i += 1;
        }
        false
    }

    /// Create the entry for a reply token. A well-known token is
    /// refused — the reserved range never enters the table — and so
    /// is a token that already waits.
    pub fn insert(&mut self, u: UID) -> (r: Result<(), FlowError>)
        requires
            old(self).wf(),
        ensures
            final(self).wf(),
            u.spec_is_well_known() ==> r == Err::<(), FlowError>(FlowError::WellKnownReplyToken)
                && *final(self) == *old(self),
            !u.spec_is_well_known() && old(self).spec_contains(u) ==> r == Err::<(), FlowError>(
                FlowError::DuplicateReplyToken,
            ) && *final(self) == *old(self),
            !u.spec_is_well_known() && !old(self).spec_contains(u) ==> (r is Ok
                && final(self).spec_keys() == old(self).spec_keys().push(u)),
    {
        if u.first == crate::uid::WELL_KNOWN_FIRST_WORD && u.second
            < crate::uid::WELL_KNOWN_TOKEN_COUNT {
            return Err(FlowError::WellKnownReplyToken);
        }
        if self.contains(&u) {
            return Err(FlowError::DuplicateReplyToken);
        }
        self.entries.push(u);
        proof {
            let oldk = old(self).spec_keys();
            let newk = self.spec_keys();
            assert forall|a: int, b: int| 0 <= a < b < newk.len() implies newk[a] != newk[b] by {
                if b < newk.len() - 1 {
                    assert(oldk[a] != oldk[b]);
                } else if newk[a] == u {
                    assert(oldk[a] == u);
                    assert(old(self).spec_contains(u));
                }
            }
            assert forall|a: int| 0 <= a < newk.len() implies !(#[trigger] newk[a]).spec_is_well_known() by {
                if a < newk.len() - 1 {
                    assert(!oldk[a].spec_is_well_known());
                }
            }
        }
        Ok(())
    }

    /// Take every waiting token out of the table, in insertion
    /// order, leaving it empty: on connection teardown the caller
    /// resolves each with a connection-closed error, so no waiter
    /// waits forever.
    pub fn drain(&mut self) -> (orphans: Vec<UID>)
        requires
            old(self).wf(),
        ensures
            final(self).wf(),
            orphans@ == old(self).spec_keys(),
            final(self).spec_keys().len() == 0,
    {
        let mut orphans: Vec<UID> = Vec::new();
        core::mem::swap(&mut orphans, &mut self.entries);
        orphans
    }

    /// Remove a token's entry, reporting whether one was there. The
    /// remaining entries are exactly the others.
    pub fn remove(&mut self, u: &UID) -> (found: bool)
        requires
            old(self).wf(),
        ensures
            final(self).wf(),
            found == old(self).spec_contains(*u),
            !final(self).spec_contains(*u),
            forall|v: UID| v != *u ==> final(self).spec_contains(v) == old(self).spec_contains(v),
            found ==> final(self).spec_keys().len() == old(self).spec_keys().len() - 1,
            !found ==> *final(self) == *old(self),
    {
        let n = self.entries.len();
        let mut i: usize = 0;
        while i < n
            invariant
                i <= n,
                n == self.entries@.len(),
                *self == *old(self),
                old(self).wf(),
                forall|k: int| 0 <= k < i ==> self.entries@[k] != *u,
            decreases n - i,
        {
            let e = &self.entries[i];
            if e.first == u.first && e.second == u.second {
                proof {
                    assert(self.entries@[i as int] == *u);
                }
                self.entries.swap_remove(i);
                proof {
                    let oldk = old(self).spec_keys();
                    let newk = self.entries@;
                    assert forall|v: UID| v != *u implies self.spec_contains(v)
                        == old(self).spec_contains(v) by {
                        if old(self).spec_contains(v) {
                            let j = choose|j: int|
                                0 <= j < oldk.len() && oldk[j] == v;
                            if j == i {
                                assert(false);
                            } else if j == oldk.len() - 1 {
                                if i < newk.len() {
                                    assert(newk[i as int] == v);
                                } else {
                                    assert(false);
                                }
                            } else {
                                assert(newk[j] == v);
                            }
                        }
                        if self.spec_contains(v) {
                            let j = choose|j: int|
                                0 <= j < newk.len() && newk[j] == v;
                            if j == i && i < newk.len() {
                                assert(oldk[oldk.len() - 1] == v);
                            } else {
                                assert(oldk[j] == v);
                            }
                        }
                    }
                    assert(!self.spec_contains(*u)) by {
                        if self.spec_contains(*u) {
                            let j = choose|j: int|
                                0 <= j < newk.len() && newk[j] == *u;
                            if j == i {
                                assert(oldk[oldk.len() - 1] == *u);
                                assert(false);
                            } else {
                                assert(oldk[j] == *u);
                                assert(false);
                            }
                        }
                    }
                }
                return true;
            }
            i += 1;
        }
        false
    }
}

/// No token of the well-known range ever has a pending-reply entry:
/// the table's invariant excludes the whole reserved range, and every
/// operation preserves it.
pub proof fn lemma_no_well_known_pending(t: PendingTable, u: UID)
    requires
        t.wf(),
        u.spec_is_well_known(),
    ensures
        !t.spec_contains(u),
{
    if t.spec_contains(u) {
        let i = choose|i: int| 0 <= i < t.spec_keys().len() && t.spec_keys()[i] == u;
        assert(!t.spec_keys()[i].spec_is_well_known());
        assert(false);
    }
}

/// What the router decides to do with an inbound message.
#[derive(Clone, Copy, Debug, PartialEq, Eq, Structural)]
pub enum RouteDecision {
    /// A registered handler for this well-known endpoint is invoked.
    CallHandler(WLTOKEN),
    /// The frame resolves a waiting reply; its entry has been removed.
    DeliverPending,
    /// Nobody can take the message: answer EndpointNotFound.
    ReplyEndpointNotFound,
}

/// The process-wide router: the registered well-known handlers and
/// the pending-reply table.
pub struct RequestRouter {
    pub handlers: Vec<WLTOKEN>,
    pub pending: PendingTable,
}

impl RequestRouter {
    /// A handler is registered for this well-known endpoint.
    pub open spec fn spec_has_handler(self, w: WLTOKEN) -> bool {
        exists|i: int| 0 <= i < self.handlers@.len() && self.handlers@[i] == w
    }

    pub open spec fn wf(self) -> bool {
        self.pending.wf()
    }

    /// A router with no handlers and nothing pending.
    pub fn new() -> (r: RequestRouter)
        ensures
            r.wf(),
            forall|w: WLTOKEN| !r.spec_has_handler(w),
            r.pending.spec_keys().len() == 0,
    {
        RequestRouter { handlers: Vec::new(), pending: PendingTable::new() }
    }

    /// Register a handler for a well-known endpoint; done at startup,
    /// dynamic re-registration is not offered.
    pub fn register_handler(&mut self, w: WLTOKEN)
        requires
            old(self).wf(),
        ensures
            final(self).wf(),
            final(self).spec_has_handler(w),
            forall|v: WLTOKEN| old(self).spec_has_handler(v) ==> final(self).spec_has_handler(v),
            final(self).pending == old(self).pending,
    {
        self.handlers.push(w);
        proof {
            assert(self.handlers@[self.handlers@.len() - 1] == w);
            assert forall|v: WLTOKEN| old(self).spec_has_handler(v) implies self.spec_has_handler(
                v,
            ) by {
                let i = choose|i: int|
                    0 <= i < old(self).handlers@.len() && old(self).handlers@[i] == v;
                assert(self.handlers@[i] == v);
            }
        }
    }

    /// Whether a handler is registered.
    pub fn has_handler(&self, w: WLTOKEN) -> (r: bool)
        ensures
            r == self.spec_has_handler(w),
    {
        let n = self.handlers.len();
        let mut i: usize = 0;
        while i < n
            invariant
                i <= n,
                n == self.handlers@.len(),
                forall|k: int| 0 <= k < i ==> self.handlers@[k] != w,
            decreases n - i,
        {
            if self.handlers[i] == w {
                return true;
            }
            i += 1;
        }
        false
    }

    /// The dispatch rule, evaluated in order: a well-known token goes
    /// to its registered handler or is answered EndpointNotFound; an
    /// ephemeral token resolves a pending reply or is answered
    /// EndpointNotFound.
    pub open spec fn spec_route_decision(self, token: UID) -> RouteDecision {
        match token.spec_well_known() {
            Some(w) => if self.spec_has_handler(w) {
                RouteDecision::CallHandler(w)
            } else {
                RouteDecision::ReplyEndpointNotFound
            },
            None => if self.pending.spec_contains(token) {
                RouteDecision::DeliverPending
            } else {
                RouteDecision::ReplyEndpointNotFound
            },
        }
    }

    /// Decide what to do with an inbound token, by the dispatch rule;
    /// a resolved pending reply loses its entry, and nothing else
    /// changes.
    pub fn route(&mut self, token: UID) -> (d: RouteDecision)
        requires
            old(self).wf(),
        ensures
            final(self).wf(),
            final(self).handlers == old(self).handlers,
            d == old(self).spec_route_decision(token),
            token.spec_well_known() is Some ==> final(self).pending == old(self).pending,
            token.spec_well_known() is None && old(self).pending.spec_contains(token) ==> {
                &&& d == RouteDecision::DeliverPending
                &&& !final(self).pending.spec_contains(token)
                &&& forall|v: UID|
                    v != token ==> final(self).pending.spec_contains(v)
                        == old(self).pending.spec_contains(v)
            },
            token.spec_well_known() is None && !old(self).pending.spec_contains(token) ==> {
                &&& d == RouteDecision::ReplyEndpointNotFound
                &&& final(self).pending == old(self).pending
            },
    {
        match token.get_well_known_endpoint() {
            Some(w) => {
                if self.has_handler(w) {
                    RouteDecision::CallHandler(w)
                } else {
                    RouteDecision::ReplyEndpointNotFound
                }
            },
            None => {
                if self.pending.remove(&token) {
                    RouteDecision::DeliverPending
                } else {
                    RouteDecision::ReplyEndpointNotFound
                }
            },
        }
    }

    /// Prepare an outgoing message: when it carries a reply-promise
    /// token — extracted from the payload by the schema collaborator —
    /// record it in the pending-reply table. A well-known or already
    /// waiting token is refused and nothing is recorded.
    pub fn prepare_send(&mut self, reply_token: Option<UID>) -> (r: Result<(), FlowError>)
        requires
            old(self).wf(),
        ensures
            final(self).wf(),
            final(self).handlers == old(self).handlers,
            reply_token is None ==> r is Ok && *final(self) == *old(self),
            reply_token matches Some(u) ==> {
                &&& u.spec_is_well_known() ==> r == Err::<(), FlowError>(
                    FlowError::WellKnownReplyToken,
                ) && *final(self) == *old(self)
                &&& !u.spec_is_well_known() && old(self).pending.spec_contains(u) ==> r == Err::<
                    (),
                    FlowError,
                >(FlowError::DuplicateReplyToken) && *final(self) == *old(self)
                &&& !u.spec_is_well_known() && !old(self).pending.spec_contains(u) ==> r is Ok
                    && final(self).pending.spec_keys() == old(self).pending.spec_keys().push(u)
            },
    {
        match reply_token {
            None => Ok(()),
            Some(u) => self.pending.insert(u),
        }
    }
}

/// The ping handler's reply: a frame addressed straight to the
/// request's reply-promise token, with an empty payload.
pub fn ping_reply(reply_token: UID) -> (r: Frame)
    ensures
        r@.token == reply_token,
        r@.payload.len() == 0,
{
    Frame { token: reply_token, payload: Vec::new() }
}

/// The reply synthesized for a message nobody can take: an
/// EndpointNotFound frame whose payload carries the original token,
/// addressed back to the message's source.
pub fn endpoint_not_found_reply(original: &FlowMessage) -> (r: FlowMessage)
    ensures
        r.frame@.token.spec_well_known() == Some(WLTOKEN::EndpointNotFound),
        r.frame@.payload == spec_token_bytes(original.frame@.token),
        r.flow.dst == original.flow.src,
        r.flow.src == original.flow.dst,
        r.wf(),
{
    proof {
        vstd::bytes::lemma_auto_spec_u64_to_from_le_bytes();
        vstd::bytes::lemma_auto_spec_u32_to_from_le_bytes();
    }
    let token = UID::well_known_token(WLTOKEN::EndpointNotFound);
    let mut payload: Vec<u8> = vstd::bytes::u64_to_le_bytes(original.frame.token.first);
    let mut second_bytes: Vec<u8> = vstd::bytes::u64_to_le_bytes(original.frame.token.second);
    payload.append(&mut second_bytes);
    proof {
        assert(payload@ =~= spec_token_bytes(original.frame@.token));
    }
    let frame = Frame { token, payload };
    let file_identifier = match frame.peek_file_identifier() {
        Ok(id) => id,
        Err(_) => 0,
    };
    FlowMessage {
        flow: Flow { src: original.flow.dst, dst: original.flow.src },
        frame,
        file_identifier,
    }
}

} // verus!
