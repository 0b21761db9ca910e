//! The bounded queue of raw event codes, kept in a `crossbeam_queue::ArrayQueue`.

use crossbeam_queue::ArrayQueue;
use vstd::prelude::*;

verus! {

/// `crossbeam_queue::ArrayQueue`, a bounded queue whose inside is opaque
/// here.
#[verifier::external_type_specification]
#[verifier::external_body]
#[verifier::reject_recursive_types(T)]
pub struct ExArrayQueue<T>(ArrayQueue<T>);

/// The codes that a queue holds, oldest first.
pub uninterp spec fn queued_codes(queue: ArrayQueue<u8>) -> Seq<u8>;

/// The capacity that a queue was made with.
pub uninterp spec fn queue_limit(queue: ArrayQueue<u8>) -> nat;

/// The largest capacity that this library asks of `ArrayQueue::new`.
pub const MAX_CAPACITY: usize = 0x1_0000;

/// `ArrayQueue::new`: allocates a queue of the given capacity, which holds
/// nothing yet. The outside function panics on a capacity of zero and on one
/// whose buffer is too large to allocate; `requires` leaves both out.
#[verifier::external_body]
fn array_queue_new(capacity: usize) -> (queue: ArrayQueue<u8>)
    requires
        0 < capacity <= MAX_CAPACITY,
    ensures
        queued_codes(queue) == Seq::<u8>::empty(),
        queue_limit(queue) == capacity,
{
    ArrayQueue::new(capacity)
}

/// `ArrayQueue::push`, for a caller that holds the queue alone: a queue with
/// room takes the code at its tail; a full queue is left as it was and hands
/// the code back.
#[verifier::external_body]
fn array_queue_push(queue: &mut ArrayQueue<u8>, code: u8) -> (pushed: Result<(), u8>)
    ensures
        queue_limit(*final(queue)) == queue_limit(*old(queue)),
        queued_codes(*final(queue)) == push_bounded(
            queued_codes(*old(queue)),
            queue_limit(*old(queue)),
            code,
        ),
        pushed is Ok <==> queued_codes(*old(queue)).len() < queue_limit(*old(queue)),
        pushed is Err ==> pushed->Err_0 == code,
{
    queue.push(code).map_err(|refused| refused.0)
}

/// `ArrayQueue::pop`, for a caller that holds the queue alone: the oldest code
/// leaves the queue and is returned; an empty queue gives nothing.
#[verifier::external_body]
fn array_queue_pop(queue: &mut ArrayQueue<u8>) -> (popped: Option<u8>)
    ensures
        queue_limit(*final(queue)) == queue_limit(*old(queue)),
        queued_codes(*final(queue)) == pop_rest(queued_codes(*old(queue))),
        popped == pop_front(queued_codes(*old(queue))),
{
    queue.pop().ok()
}

/// The contents after a push onto a queue of the given capacity: the code is
/// appended where there is room, and dropped where there is none.
pub open spec fn push_bounded(codes: Seq<u8>, capacity: nat, code: u8) -> Seq<u8> {
    if codes.len() < capacity {
        codes.push(code)
    } else {
        codes
    }
}

/// What a pop returns: the oldest code, if there is one.
pub open spec fn pop_front(codes: Seq<u8>) -> Option<u8> {
    if codes.len() > 0 {
        Some(codes[0])
    } else {
        None
    }
}

/// The contents after a pop: all but the oldest code.
pub open spec fn pop_rest(codes: Seq<u8>) -> Seq<u8> {
    if codes.len() > 0 {
        codes.skip(1)
    } else {
        codes
    }
}

/// A fixed-capacity first-in first-out queue of raw event codes. A push never
/// blocks: onto a full queue it drops the new code and says so.
pub struct EventQueue {
    inner: ArrayQueue<u8>,
}

impl View for EventQueue {
    type V = Seq<u8>;

    closed spec fn view(&self) -> Seq<u8> {
        queued_codes(self.inner)
    }
}

impl EventQueue {
    /// The number of codes that the queue can hold.
    pub closed spec fn capacity(&self) -> nat {
        queue_limit(self.inner)
    }

    /// The queue never holds more than its capacity, which is not zero.
    pub open spec fn wf(&self) -> bool {
        0 < self.capacity() && self@.len() <= self.capacity()
    }

    /// Creates an empty queue of the given capacity.
    pub fn new(capacity: usize) -> (queue: Self)
        requires
            0 < capacity <= MAX_CAPACITY,
        ensures
            queue.wf(),
            queue@ == Seq::<u8>::empty(),
            queue.capacity() == capacity,
    {
        EventQueue { inner: array_queue_new(capacity) }
    }

    /// Appends a code, or drops it where the queue is full. Returns whether
    /// the queue took the code.
    pub fn push(&mut self, code: u8) -> (taken: bool)
        requires
            old(self).wf(),
        ensures
            final(self).wf(),
            final(self).capacity() == old(self).capacity(),
            final(self)@ == push_bounded(old(self)@, old(self).capacity(), code),
            taken <==> old(self)@.len() < old(self).capacity(),
    {
        array_queue_push(&mut self.inner, code).is_ok()
    }

    /// Removes and returns the oldest code; `None` on an empty queue.
    pub fn pop(&mut self) -> (code: Option<u8>)
        requires
            old(self).wf(),
        ensures
            final(self).wf(),
            final(self).capacity() == old(self).capacity(),
            final(self)@ == pop_rest(old(self)@),
            code == pop_front(old(self)@),
    {
        array_queue_pop(&mut self.inner)
    }
}

} // verus!
