//! The scancode pipeline: a fixed-capacity lock-free byte queue written by
//! the keyboard interrupt handler, plus a single wake-notification slot
//! through which the producer resumes a consumer task suspended on an empty
//! queue. Bytes arrive at the consumer in push order; a byte pushed against
//! a full queue is dropped and counted, never reordered. The contracts
//! describe the pipeline one actor at a time; the lock-free interleaving of
//! the two actors is outside them.

use vstd::prelude::*;

verus! {

#[verifier::external_type_specification]
#[verifier::external_body]
#[verifier::reject_recursive_types(T)]
pub struct ExArrayQueue<T>(crossbeam_queue::ArrayQueue<T>);

#[verifier::external_type_specification]
#[verifier::external_body]
pub struct ExAtomicWaker(futures_util::task::AtomicWaker);

#[verifier::external_type_specification]
#[verifier::external_body]
pub struct ExWaker(core::task::Waker);

/// The bytes held by a scancode queue, oldest first.
pub uninterp spec fn queue_contents(q: crossbeam_queue::ArrayQueue<u8>) -> Seq<u8>;

/// The fixed capacity a scancode queue was created with.
pub uninterp spec fn queue_capacity(q: crossbeam_queue::ArrayQueue<u8>) -> nat;

/// Whether a wake slot currently holds a registered waker.
pub uninterp spec fn slot_registered(w: futures_util::task::AtomicWaker) -> bool;

/// Relies on crossbeam_queue::ArrayQueue::new: a fresh queue of the given
/// nonzero capacity holds nothing.
#[verifier::external_body]
fn queue_new(cap: usize) -> (q: crossbeam_queue::ArrayQueue<u8>)
    requires
        cap >= 1,
    ensures
        queue_contents(q) == Seq::<u8>::empty(),
        queue_capacity(q) == cap,
{
    crossbeam_queue::ArrayQueue::new(cap)
}

/// Relies on crossbeam_queue::ArrayQueue::push: appends the value at the
/// tail when the queue has room and reports whether it did; a full queue is
/// left unchanged.
#[verifier::external_body]
fn queue_push(q: &mut crossbeam_queue::ArrayQueue<u8>, value: u8) -> (r: bool)
    ensures
        queue_capacity(*final(q)) == queue_capacity(*old(q)),
        r == (queue_contents(*old(q)).len() < queue_capacity(*old(q))),
        r ==> queue_contents(*final(q)) == queue_contents(*old(q)).push(value),
        !r ==> queue_contents(*final(q)) == queue_contents(*old(q)),
{
    q.push(value).is_ok()
}

/// Relies on crossbeam_queue::ArrayQueue::pop: removes and returns the
/// oldest value, or returns nothing from an empty queue.
#[verifier::external_body]
fn queue_pop(q: &mut crossbeam_queue::ArrayQueue<u8>) -> (r: Option<u8>)
    ensures
        queue_capacity(*final(q)) == queue_capacity(*old(q)),
        queue_contents(*old(q)).len() == 0 ==> r is None && queue_contents(*final(q))
            == queue_contents(*old(q)),
        queue_contents(*old(q)).len() > 0 ==> r == Some(queue_contents(*old(q))[0])
            && queue_contents(*final(q)) == queue_contents(*old(q)).skip(1),
{
    q.pop()
}

/// Relies on futures_util::task::AtomicWaker::new: a fresh slot holds no
/// waker.
#[verifier::external_body]
fn waker_slot_new() -> (w: futures_util::task::AtomicWaker)
    ensures
        !slot_registered(w),
{
    futures_util::task::AtomicWaker::new()
}

/// Relies on futures_util::task::AtomicWaker::register: afterwards the
/// slot holds the calling task's waker.
#[verifier::external_body]
fn waker_register(slot: &mut futures_util::task::AtomicWaker, waker: &core::task::Waker)
    ensures
        slot_registered(*final(slot)),
{
    slot.register(waker)
}

/// Relies on futures_util::task::AtomicWaker::wake: takes the registered
/// waker, if one is present, and wakes it, leaving the slot empty.
#[verifier::external_body]
fn waker_wake(slot: &mut futures_util::task::AtomicWaker)
    ensures
        !slot_registered(*final(slot)),
{
    slot.wake()
}

/// Relies on futures_util::task::AtomicWaker::take: removes and returns
/// the registered waker, if one is present, without waking it.
#[verifier::external_body]
fn waker_take(slot: &mut futures_util::task::AtomicWaker) -> (r: Option<core::task::Waker>)
    ensures
        !slot_registered(*final(slot)),
        r is Some <==> slot_registered(*old(slot)),
{
    slot.take()
}

/// How many scancodes the pipeline can hold.
pub const SCANCODE_QUEUE_SIZE: usize = 128;

/// The mathematical state of the pipeline: the queued bytes in arrival
/// order, the queue's capacity, whether a consumer waker is registered, and
/// how many bytes have been dropped against a full queue.
pub struct PipeModel {
    pub queue: Seq<u8>,
    pub capacity: nat,
    pub registered: bool,
    pub dropped: u64,
}

/// A producer push: onto a queue with room the byte is appended and the
/// registered consumer, if any, is woken exactly once (the slot empties);
/// against a full queue the byte is dropped and only the loss counter
/// moves. The second component tells whether a wake was delivered.
pub open spec fn produce_model(m: PipeModel, byte: u8) -> (PipeModel, bool) {
    if m.queue.len() < m.capacity {
        (PipeModel { queue: m.queue.push(byte), registered: false, ..m }, m.registered)
    } else {
        (
            PipeModel {
                dropped: if m.dropped < u64::MAX {
                    (m.dropped + 1) as u64
                } else {
                    m.dropped
                },
                ..m
            },
            false,
        )
    }
}

/// A consumer poll: from a nonempty queue the oldest byte is returned at
/// once; on an empty queue the consumer registers its waker and reports
/// nothing to deliver.
pub open spec fn poll_model(m: PipeModel) -> (PipeModel, Option<u8>) {
    if m.queue.len() > 0 {
        (PipeModel { queue: m.queue.skip(1), ..m }, Some(m.queue[0]))
    } else {
        (PipeModel { registered: true, ..m }, None)
    }
}

/// The pipeline state after a sequence of producer pushes.
pub open spec fn produce_all(m: PipeModel, bytes: Seq<u8>) -> PipeModel
    decreases bytes.len(),
{
    if bytes.len() == 0 {
        m
    } else {
        produce_all(produce_model(m, bytes[0]).0, bytes.skip(1))
    }
}

/// Pushes that fit the queue's free space are delivered complete and in
/// order: afterwards the queue holds the old contents followed by every
/// pushed byte.
pub proof fn lemma_produce_all_in_order(m: PipeModel, bytes: Seq<u8>)
    requires
        m.queue.len() + bytes.len() <= m.capacity,
    ensures
        produce_all(m, bytes).queue == m.queue + bytes,
        produce_all(m, bytes).dropped == m.dropped,
    decreases bytes.len(),
{
    if bytes.len() == 0 {
        assert(m.queue + bytes =~= m.queue);
    } else {
        let m1 = produce_model(m, bytes[0]).0;
        lemma_produce_all_in_order(m1, bytes.skip(1));
        assert(m1.queue + bytes.skip(1) =~= m.queue + bytes);
    }
}

/// A push against a full queue loses that byte and nothing else: the
/// queued bytes are untouched, neither reordered nor duplicated, and only
/// the loss counter moves.
pub proof fn lemma_produce_full_drops(m: PipeModel, byte: u8)
    requires
        m.queue.len() >= m.capacity,
    ensures
        produce_model(m, byte).0.queue == m.queue,
        produce_model(m, byte).0.registered == m.registered,
        !produce_model(m, byte).1,
{
}

/// Wakes coalesce: a successful push wakes the consumer exactly when one
/// is registered, and empties the slot, so a second push before the
/// consumer registers again wakes no one.
pub proof fn lemma_wake_coalesces(m: PipeModel, b1: u8, b2: u8)
    requires
        m.queue.len() < m.capacity,
    ensures
        produce_model(m, b1).1 == m.registered,
        !produce_model(produce_model(m, b1).0, b2).1,
{
}

/// A consumer that suspended on an empty queue and is then resumed by a
/// push observes, by draining, every byte pushed up to that point.
pub proof fn lemma_resumed_consumer_sees_all(m: PipeModel, bytes: Seq<u8>)
    requires
        poll_model(m).1 is None,
        bytes.len() <= m.capacity,
        bytes.len() > 0,
    ensures
        produce_model(poll_model(m).0, bytes[0]).1,
        produce_all(poll_model(m).0, bytes).queue == bytes,
{
    let suspended = poll_model(m).0;
    assert(suspended.queue =~= m.queue);
    lemma_produce_all_in_order(suspended, bytes);
    assert(suspended.queue + bytes =~= bytes);
}

/// The scancode pipeline: the bounded lock-free queue, the consumer wake
/// slot, and a diagnostic count of bytes dropped against a full queue. At
/// most one producer (the interrupt handler) and one consumer task may use
/// a pipeline; building the single process-wide instance exactly once is
/// the boot sequence's duty.
pub struct ScancodeStream {
    pub queue: crossbeam_queue::ArrayQueue<u8>,
    pub waker: futures_util::task::AtomicWaker,
    pub dropped: u64,
}

impl ScancodeStream {
    /// The pipeline's mathematical state.
    pub open spec fn model(self) -> PipeModel {
        PipeModel {
            queue: queue_contents(self.queue),
            capacity: queue_capacity(self.queue),
            registered: slot_registered(self.waker),
            dropped: self.dropped,
        }
    }

    /// The queue was built with the pipeline's fixed capacity.
    pub open spec fn wf(self) -> bool {
        queue_capacity(self.queue) == SCANCODE_QUEUE_SIZE
    }

    /// Builds an empty pipeline with no registered consumer.
    pub fn new() -> (r: ScancodeStream)
        ensures
            r.wf(),
            r.model() == (PipeModel {
                queue: Seq::<u8>::empty(),
                capacity: SCANCODE_QUEUE_SIZE as nat,
                registered: false,
                dropped: 0u64,
            }),
    {
        ScancodeStream {
            queue: queue_new(SCANCODE_QUEUE_SIZE),
            waker: waker_slot_new(),
            dropped: 0,
        }
    }

    /// The producer side, safe for interrupt context: pushes a byte and,
    /// when it fits, wakes the registered consumer, if any; against a full
    /// queue the byte is dropped and counted. Never blocks, never
    /// allocates.
    pub fn add_scancode(&mut self, scancode: u8)
        requires
            old(self).wf(),
        ensures
            final(self).wf(),
            final(self).model() == produce_model(old(self).model(), scancode).0,
    {
        let pushed = queue_push(&mut self.queue, scancode);
        if pushed {
            waker_wake(&mut self.waker);
        } else {
            if self.dropped < u64::MAX {
                self.dropped = self.dropped + 1;
            }
        }
    }

    /// The consumer side: returns the oldest byte at once when one is
    /// queued. On an empty queue it registers the caller's waker and then
    /// checks the queue once more, to close the race with a push that
    /// arrived between the first check and the registration, before
    /// reporting nothing to deliver.
    pub fn poll_scancode(&mut self, waker: &core::task::Waker) -> (r: Option<u8>)
        requires
            old(self).wf(),
        ensures
            final(self).wf(),
            final(self).model() == poll_model(old(self).model()).0,
            r == poll_model(old(self).model()).1,
    {
        match queue_pop(&mut self.queue) {
            Some(scancode) => Some(scancode),
            None => {
                waker_register(&mut self.waker, waker);
                match queue_pop(&mut self.queue) {
                    Some(scancode) => {
                        let _taken = waker_take(&mut self.waker);
                        Some(scancode)
                    },
                    None => None,
                }
            },
        }
    }

    /// Removes and returns every queued byte, oldest first.
    pub fn drain(&mut self) -> (r: Vec<u8>)
        requires
            old(self).wf(),
        ensures
            final(self).wf(),
            r@ == queue_contents(old(self).queue),
            queue_contents(final(self).queue) == Seq::<u8>::empty(),
            slot_registered(final(self).waker) == slot_registered(old(self).waker),
            final(self).dropped == old(self).dropped,
    {
        let mut out: Vec<u8> = Vec::new();
        loop
            invariant
                self.wf(),
                slot_registered(self.waker) == slot_registered(old(self).waker),
                self.dropped == old(self).dropped,
                out@ + queue_contents(self.queue) == queue_contents(old(self).queue),
            decreases queue_contents(self.queue).len(),
        {
            match queue_pop(&mut self.queue) {
                Some(scancode) => {
                    out.push(scancode);
                    proof {
                        assert(out@ + queue_contents(self.queue) == queue_contents(
                            old(self).queue,
                        )) by {
                            assert(out@ + queue_contents(self.queue) =~= queue_contents(
                                old(self).queue,
                            ));
                        }
                    }
                },
                None => {
                    proof {
                        assert(out@ =~= queue_contents(old(self).queue));
                    }
                    return out;
                },
            }
        }
    }
}

} // verus!
