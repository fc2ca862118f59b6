//! The sender's batching discipline: the single writer task drains
//! the per-connection outbound queue and serializes every drained
//! message, in queue order, into one write buffer, which is flushed
//! when the queue momentarily empties.
//!
//! The queue is the only path into a connection's writer, and one
//! task owns the writer, so the bytes on the wire are exactly the
//! concatenation below.

use vstd::prelude::*;

use crate::codec::{spec_encode_frame, spec_frame_wf, write_frame};
use crate::errors::FlowError;
use crate::frame::FlowMessage;

verus! {

/// The frames carried by a queue of messages, in queue order.
pub open spec fn spec_batch_frames(batch: Seq<FlowMessage>) -> Seq<crate::frame::FrameView> {
    batch.map_values(|m: FlowMessage| m.frame@)
}

/// Every frame of the batch respects the configured maximum.
pub open spec fn spec_batch_wf(batch: Seq<FlowMessage>) -> bool {
    forall|i: int| 0 <= i < batch.len() ==> spec_frame_wf(#[trigger] batch[i].frame@)
}

/// The bytes a drained batch puts on the wire: each message's frame
/// encoded once, in queue order, nothing else.
pub open spec fn spec_encode_batch(frames: Seq<crate::frame::FrameView>, with_checksum: bool) -> Seq<
    u8,
>
    decreases frames.len(),
{
    if frames.len() == 0 {
        Seq::empty()
    } else {
        spec_encode_batch(frames.drop_last(), with_checksum) + spec_encode_frame(
            frames.last(),
            with_checksum,
        )
    }
}

/// Serialize a drained batch into the write buffer. Every enqueued
/// message the sender observes is written exactly once and in
/// enqueue order: the buffer grows by exactly the in-order
/// concatenation of the messages' encodings. A message over the
/// frame size limit aborts the batch before anything is written.
pub fn write_batch(out: &mut Vec<u8>, batch: &Vec<FlowMessage>, with_checksum: bool) -> (r: Result<
    (),
    FlowError,
>)
    ensures
        spec_batch_wf(batch@) ==> r is Ok,
        r is Ok ==> spec_batch_wf(batch@) && final(out)@ == old(out)@ + spec_encode_batch(
            spec_batch_frames(batch@),
            with_checksum,
        ),
        r is Err ==> (r == Err::<(), FlowError>(FlowError::LengthOverMax)
            && *final(out) == *old(out)),
{
    let n = batch.len();
    let mut i: usize = 0;
    while i < n
        invariant
            i <= n,
            n == batch@.len(),
            forall|k: int| 0 <= k < i ==> spec_frame_wf(#[trigger] batch@[k].frame@),
        decreases n - i,
    {
        if batch[i].frame.payload.len() > crate::codec::MAX_PAYLOAD_BYTES {
            proof {
                assert(!spec_frame_wf(batch@[i as int].frame@));
            }
            return Err(FlowError::LengthOverMax);
        }
        i += 1;
    }
    let mut j: usize = 0;
    while j < n
        invariant
            j <= n,
            n == batch@.len(),
            spec_batch_wf(batch@),
            out@ == old(out)@ + spec_encode_batch(
                spec_batch_frames(batch@.subrange(0, j as int)),
                with_checksum,
            ),
        decreases n - j,
    {
        write_frame(out, &batch[j].frame, with_checksum);
        proof {
            let fs = spec_batch_frames(batch@.subrange(0, j as int));
            let fs1 = spec_batch_frames(batch@.subrange(0, j as int + 1));
            assert(fs1.drop_last() =~= fs);
            assert(fs1.last() == batch@[j as int].frame@);
            assert(spec_encode_batch(fs1, with_checksum) == spec_encode_batch(fs, with_checksum)
                + spec_encode_frame(batch@[j as int].frame@, with_checksum));
        }
        j += 1;
    }
    proof {
        assert(batch@.subrange(0, n as int) =~= batch@);
    }
    Ok(())
}

/// The per-connection outbound queue: the only path into the
/// connection's writer. Producers enqueue; the single sender task
/// drains. The queue is open until the sender terminates; enqueueing
/// on a closed queue fails and the caller should drop its handle.
pub struct OutboundQueue {
    pub messages: Vec<FlowMessage>,
    pub open: bool,
}

impl OutboundQueue {
    /// A fresh, open, empty queue.
    pub fn new() -> (r: OutboundQueue)
        ensures
            r.open,
            r.messages@.len() == 0,
    {
        OutboundQueue { messages: Vec::new(), open: true }
    }

    /// Non-blocking enqueue: appends in arrival order while the
    /// sender lives, fails once it has terminated.
    pub fn enqueue(&mut self, message: FlowMessage) -> (r: Result<(), FlowError>)
        ensures
            final(self).open == old(self).open,
            old(self).open ==> (r is Ok && final(self).messages@ == old(self).messages@.push(
                message,
            )),
            !old(self).open ==> (r == Err::<(), FlowError>(FlowError::ConnectionClosed)
                && *final(self) == *old(self)),
    {
        if !self.open {
            return Err(FlowError::ConnectionClosed);
        }
        self.messages.push(message);
        Ok(())
    }

    /// The sender terminated: no more messages will be taken.
    pub fn close(&mut self)
        ensures
            !final(self).open,
            final(self).messages@ == old(self).messages@,
    {
        self.open = false;
    }

    /// The sender wakes and takes everything currently queued, in
    /// enqueue order, leaving the queue empty.
    pub fn drain(&mut self) -> (batch: Vec<FlowMessage>)
        ensures
            batch@ == old(self).messages@,
            final(self).messages@.len() == 0,
            final(self).open == old(self).open,
    {
        let mut batch: Vec<FlowMessage> = Vec::new();
        core::mem::swap(&mut batch, &mut self.messages);
        batch
    }
}

/// A connection handler's request path for outgoing traffic: validate
/// the message and hand it to the sender's queue. No reply future is
/// owed; the reply, if any, comes back over the wire.
pub fn handle_req(queue: &mut OutboundQueue, request: FlowMessage) -> (r: Result<
    Option<FlowMessage>,
    FlowError,
>)
    ensures
        final(queue).open == old(queue).open,
        !request.frame@.long_enough() ==> (r == Err::<Option<FlowMessage>, FlowError>(
            FlowError::FrameTooShort,
        ) && *final(queue) == *old(queue)),
        request.frame@.long_enough() && old(queue).open ==> (r matches Ok(reply) && reply is None
            && final(queue).messages@ == old(queue).messages@.push(request)),
        request.frame@.long_enough() && !old(queue).open ==> (r == Err::<
            Option<FlowMessage>,
            FlowError,
        >(FlowError::ConnectionClosed) && *final(queue) == *old(queue)),
{
    match request.frame.validate() {
        Ok(()) => (),
        Err(e) => {
            return Err(e);
        },
    }
    match queue.enqueue(request) {
        Ok(()) => Ok(None),
        Err(e) => Err(e),
    }
}

/// Batching does not reorder or drop: draining a queue in two
/// wakeups puts the same bytes on the wire as draining it in one —
/// the encoding of a concatenated queue is the concatenation of the
/// encodings.
pub proof fn lemma_batch_append(
    q1: Seq<crate::frame::FrameView>,
    q2: Seq<crate::frame::FrameView>,
    with_checksum: bool,
)
    ensures
        spec_encode_batch(q1 + q2, with_checksum) == spec_encode_batch(q1, with_checksum)
            + spec_encode_batch(q2, with_checksum),
    decreases q2.len(),
{
    if q2.len() == 0 {
        assert(q1 + q2 =~= q1);
        assert(spec_encode_batch(q1, with_checksum) + spec_encode_batch(q2, with_checksum)
            =~= spec_encode_batch(q1, with_checksum));
    } else {
        lemma_batch_append(q1, q2.drop_last(), with_checksum);
        assert((q1 + q2).drop_last() =~= q1 + q2.drop_last());
        assert((q1 + q2).last() == q2.last());
        assert(spec_encode_batch(q1 + q2, with_checksum) =~= spec_encode_batch(
            q1,
            with_checksum,
        ) + spec_encode_batch(q2, with_checksum));
    }
}

} // verus!
