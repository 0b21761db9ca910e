//! The path of a key press: from the interrupt bridge, through the bounded
//! queue and the wake cell, to the event stream and the line editor's task.

use crate::task::decoder::{Decoder, DecoderView};
use crate::task::event_queue::{pop_front, pop_rest, push_bounded, EventQueue};
use crate::task::line_editor::{
    append_str, next_state, response_to, EditorView, Key, LineEditor, Response, ResponseView, PROMPT,
};
use crate::task::wake_cell::WakeCell;
use crate::task::Poll;
use vstd::prelude::*;

verus! {

/// The number of scan codes that the queue between interrupt context and the
/// stream holds.
pub const QUEUE_CAPACITY: usize = 100;

/// The state shared by the interrupt bridge and the event stream: the queue,
/// which exists once the stream has been constructed, and the wake cell.
pub struct ScancodeChannel<H> {
    queue: Option<EventQueue>,
    waker: WakeCell<H>,
}

/// A channel as a mathematical value.
pub struct ChannelView<H> {
    /// The queued scan codes, oldest first; `None` before the stream exists.
    pub queue: Option<Seq<u8>>,
    /// The handle registered in the wake cell.
    pub waker: Option<H>,
}

impl<H> View for ScancodeChannel<H> {
    type V = ChannelView<H>;

    closed spec fn view(&self) -> ChannelView<H> {
        ChannelView {
            queue: match self.queue {
                Some(queue) => Some(queue@),
                None => None,
            },
            waker: self.waker@,
        }
    }
}

/// What the interrupt bridge reports of one scan code.
#[derive(Debug, Clone, PartialEq, Eq)]
pub enum Signal<H> {
    /// The code was queued. The handle, if there is one, is that of the
    /// waiting consumer, which the caller is to invoke.
    Delivered(Option<H>),
    /// The queue was full and the code was dropped.
    Dropped,
    /// No stream has been constructed, so there is no queue.
    Uninitialized,
}

/// Why no event stream was constructed.
#[derive(Debug, Clone, Copy, PartialEq, Eq, Structural)]
pub enum StreamError {
    /// The one stream of this channel exists already.
    AlreadyConstructed,
}

/// What the interrupt bridge reports of `code` on a channel in state `state`.
pub open spec fn signal_outcome<H>(state: ChannelView<H>, code: u8) -> Signal<H> {
    match state.queue {
        None => Signal::Uninitialized,
        Some(codes) => if codes.len() < QUEUE_CAPACITY {
            Signal::Delivered(state.waker)
        } else {
            Signal::Dropped
        },
    }
}

/// The channel after the interrupt bridge has handled `code`.
pub open spec fn after_signal<H>(state: ChannelView<H>, code: u8) -> ChannelView<H> {
    match state.queue {
        None => state,
        Some(codes) => if codes.len() < QUEUE_CAPACITY {
            ChannelView { queue: Some(codes.push(code)), waker: None }
        } else {
            state
        },
    }
}

/// What the stream's first look at the queue gives.
pub open spec fn first_look<H>(state: ChannelView<H>) -> Option<u8> {
    match state.queue {
        None => None,
        Some(codes) => pop_front(codes),
    }
}

/// The channel after a look at the queue that keeps the wake cell as it is.
pub open spec fn after_first_look<H>(state: ChannelView<H>) -> ChannelView<H> {
    match state.queue {
        None => state,
        Some(codes) => ChannelView { queue: Some(pop_rest(codes)), waker: state.waker },
    }
}

/// The channel after `handle` has been registered.
pub open spec fn after_register<H>(state: ChannelView<H>, handle: H) -> ChannelView<H> {
    ChannelView { queue: state.queue, waker: Some(handle) }
}

/// What the stream's second look at the queue gives.
pub open spec fn second_look<H>(state: ChannelView<H>) -> Poll<u8> {
    match first_look(state) {
        Some(code) => Poll::Ready(code),
        None => Poll::Pending,
    }
}

/// The channel after the second look: a code that is found leaves the queue
/// and the handle registered just before is withdrawn.
pub open spec fn after_second_look<H>(state: ChannelView<H>) -> ChannelView<H> {
    match first_look(state) {
        Some(code) => ChannelView { queue: after_first_look(state).queue, waker: None },
        None => state,
    }
}

/// What one uninterrupted poll gives.
pub open spec fn poll_result<H>(state: ChannelView<H>) -> Poll<u8> {
    second_look(state)
}

/// The channel after one uninterrupted poll with `handle`: a queued code is
/// taken without touching the wake cell; on an empty queue the handle is left
/// registered.
pub open spec fn after_poll<H>(state: ChannelView<H>, handle: H) -> ChannelView<H> {
    match first_look(state) {
        Some(code) => after_first_look(state),
        None => after_second_look(after_register(state, handle)),
    }
}

impl<H> ScancodeChannel<H> {
    /// The queue, where it exists, has the fixed capacity and holds no more.
    pub closed spec fn wf(&self) -> bool {
        self.queue matches Some(queue) ==> queue.wf() && queue.capacity() == QUEUE_CAPACITY
    }

    /// A channel without a queue and with an empty wake cell.
    pub fn new() -> (channel: Self)
        ensures
            channel.wf(),
            channel@.queue is None,
            channel@.waker is None,
    {
        ScancodeChannel { queue: None, waker: WakeCell::new() }
    }

    /// A well-formed channel holds no more codes than the queue's capacity.
    pub proof fn lemma_wf_bounds(&self)
        requires
            self.wf(),
        ensures
            self@.queue matches Some(codes) ==> codes.len() <= QUEUE_CAPACITY,
    {
    }
}

/// The interrupt bridge: queues one scan code and empties the wake cell,
/// handing out the handle of the waiting consumer for the caller to invoke. A
/// full queue drops the code and leaves the wake cell alone. Before the
/// stream has been constructed there is no queue, which is reported and is
/// the caller's fatal error. Never blocks.
pub fn add_scancode<H>(channel: &mut ScancodeChannel<H>, scancode: u8) -> (outcome: Signal<H>)
    requires
        old(channel).wf(),
    ensures
        final(channel).wf(),
        final(channel)@ == after_signal(old(channel)@, scancode),
        outcome == signal_outcome(old(channel)@, scancode),
{
    match &mut channel.queue {
        Some(queue) => {
            if queue.push(scancode) {
                Signal::Delivered(channel.waker.signal())
            } else {
                Signal::Dropped
            }
        },
        None => Signal::Uninitialized,
    }
}

/// The consumer's end of the channel: a lazily produced, endless sequence of
/// scan codes. A channel has one stream.
pub struct ScancodeStream {
    _private: (),
}

impl ScancodeStream {
    /// Constructs the channel's stream, and with it the queue. Fails where
    /// the channel has a stream already, and then changes nothing.
    pub fn new<H>(channel: &mut ScancodeChannel<H>) -> (made: Result<Self, StreamError>)
        requires
            old(channel).wf(),
        ensures
            final(channel).wf(),
            made is Ok <==> old(channel)@.queue is None,
            made is Ok ==> final(channel)@ == (ChannelView {
                queue: Some(Seq::<u8>::empty()),
                waker: old(channel)@.waker,
            }),
            made is Err ==> final(channel)@ == old(channel)@,
    {
        if channel.queue.is_some() {
            Err(StreamError::AlreadyConstructed)
        } else {
            channel.queue = Some(EventQueue::new(QUEUE_CAPACITY));
            Ok(ScancodeStream { _private: () })
        }
    }

    /// The first step of a poll: takes the oldest code if there is one.
    pub fn poll_ready<H>(&mut self, channel: &mut ScancodeChannel<H>) -> (code: Option<u8>)
        requires
            old(channel).wf(),
        ensures
            final(channel).wf(),
            code == first_look(old(channel)@),
            final(channel)@ == after_first_look(old(channel)@),
    {
        match &mut channel.queue {
            Some(queue) => queue.pop(),
            None => None,
        }
    }

    /// The second step of a poll: registers the consumer's handle.
    pub fn poll_register<H>(&mut self, channel: &mut ScancodeChannel<H>, handle: H)
        requires
            old(channel).wf(),
        ensures
            final(channel).wf(),
            final(channel)@ == after_register(old(channel)@, handle),
    {
        channel.waker.register(handle);
    }

    /// The last step of a poll: looks again, for a code that arrived while
    /// the handle was being registered. Such a code is yielded and the handle
    /// withdrawn; otherwise the consumer is to suspend.
    pub fn poll_recheck<H>(&mut self, channel: &mut ScancodeChannel<H>) -> (polled: Poll<u8>)
        requires
            old(channel).wf(),
        ensures
            final(channel).wf(),
            polled == second_look(old(channel)@),
            final(channel)@ == after_second_look(old(channel)@),
    {
        match self.poll_ready(channel) {
            Some(code) => {
                channel.waker.take();
                Poll::Ready(code)
            },
            None => Poll::Pending,
        }
    }

    /// One poll of the stream, uninterrupted: yields the oldest code, or
    /// leaves `handle` registered and reports that the consumer is to suspend.
    pub fn poll_next<H>(&mut self, channel: &mut ScancodeChannel<H>, handle: H) -> (polled: Poll<u8>)
        requires
            old(channel).wf(),
        ensures
            final(channel).wf(),
            polled == poll_result(old(channel)@),
            final(channel)@ == after_poll(old(channel)@, handle),
    {
        match self.poll_ready(channel) {
            Some(code) => Poll::Ready(code),
            None => {
                self.poll_register(channel, handle);
                self.poll_recheck(channel)
            },
        }
    }
}

/// The editor's state after what the decoder made of one scan code.
pub open spec fn state_after(state: EditorView, decoded: Option<Key>) -> EditorView {
    match decoded {
        Some(key) => next_state(state, key),
        None => state,
    }
}

/// The editor's answer to what the decoder made of one scan code.
pub open spec fn response_after(state: EditorView, decoded: Option<Key>, row: usize) -> ResponseView {
    match decoded {
        Some(key) => response_to(state, key, row),
        None => ResponseView::Nothing,
    }
}

/// The task that reads the keyboard: it prints the prompt, then takes scan
/// codes from the stream, decodes them and hands the keys to the line editor.
pub struct KeypressTask {
    scancodes: ScancodeStream,
    keyboard: Decoder,
    editor: LineEditor,
    greeted: bool,
}

impl KeypressTask {
    /// The line editor's state.
    pub closed spec fn editor(&self) -> EditorView {
        self.editor@
    }

    /// Whether the prompt has been printed.
    pub closed spec fn greeted(&self) -> bool {
        self.greeted
    }

    /// What the decoder has been given.
    pub closed spec fn decoder(&self) -> DecoderView {
        self.keyboard@
    }

    /// The line editor.
    pub fn line_editor(&self) -> (editor: &LineEditor)
        ensures
            editor@ == self.editor(),
    {
        &self.editor
    }

    /// One step of the task, with the display's cursor on row `row`. The
    /// first step asks for the prompt to be printed. Every later step polls
    /// the stream with `handle`: on a scan code it gives the editor's answer
    /// to the key that the decoder made of it, if any; without one it leaves
    /// `handle` registered and suspends.
    pub fn step<H>(&mut self, channel: &mut ScancodeChannel<H>, handle: H, row: usize) -> (polled:
        Poll<Response>)
        requires
            old(channel).wf(),
        ensures
            final(channel).wf(),
            final(self).greeted(),
            !old(self).greeted() ==> {
                &&& final(channel)@ == old(channel)@
                &&& final(self).editor() == old(self).editor()
                &&& final(self).decoder() == old(self).decoder()
                &&& polled matches Poll::Ready(response)
                &&& response@ == ResponseView::Print(PROMPT@)
            },
            old(self).greeted() ==> final(channel)@ == after_poll(old(channel)@, handle),
            old(self).greeted() && poll_result(old(channel)@) is Pending ==> {
                &&& polled is Pending
                &&& final(self).editor() == old(self).editor()
                &&& final(self).decoder() == old(self).decoder()
            },
            old(self).greeted() ==> (poll_result(old(channel)@) matches Poll::Ready(scancode) ==> {
                let decoded = old(self).decoder().key_for(scancode);
                &&& final(self).decoder() == old(self).decoder().after(scancode)
                &&& final(self).editor() == state_after(old(self).editor(), decoded)
                &&& polled matches Poll::Ready(response)
                &&& response@ == response_after(old(self).editor(), decoded, row)
            }),
    {
        if !self.greeted {
            self.greeted = true;
            let mut text: Vec<char> = Vec::new();
            append_str(&mut text, PROMPT);
            return Poll::Ready(Response::Print(text));
        }
        match self.scancodes.poll_next(channel, handle) {
            Poll::Pending => Poll::Pending,
            Poll::Ready(scancode) => {
                let decoded = self.keyboard.decode(scancode);
                let response = match decoded {
                    Some(key) => self.editor.parse_keypress(key, row),
                    None => Response::Nothing,
                };
                Poll::Ready(response)
            },
        }
    }
}

/// Makes the task that reads the keyboard, and with it the channel's stream.
/// Fails where the channel has a stream already, and then changes nothing.
pub fn print_keypress<H>(channel: &mut ScancodeChannel<H>) -> (made: Result<
    KeypressTask,
    StreamError,
>)
    requires
        old(channel).wf(),
    ensures
        final(channel).wf(),
        made is Ok <==> old(channel)@.queue is None,
        made matches Ok(task) ==> {
            &&& !task.greeted()
            &&& task.decoder() == DecoderView::fresh()
            &&& task.editor() == (EditorView { buffer: Seq::<char>::empty(), modifier: false })
            &&& final(channel)@ == (ChannelView {
                queue: Some(Seq::<u8>::empty()),
                waker: old(channel)@.waker,
            })
        },
        made is Err ==> final(channel)@ == old(channel)@,
{
    match ScancodeStream::new(channel) {
        Ok(scancodes) => Ok(
            KeypressTask {
                scancodes,
                keyboard: Decoder::new(),
                editor: LineEditor::new(),
                greeted: false,
            },
        ),
        Err(error) => Err(error),
    }
}

/// The channel after the interrupt bridge has handled `codes` in turn.
pub open spec fn after_codes<H>(state: ChannelView<H>, codes: Seq<u8>) -> ChannelView<H>
    decreases codes.len(),
{
    if codes.len() == 0 {
        state
    } else {
        after_signal(after_codes(state, codes.drop_last()), codes.last())
    }
}

/// What the interrupt bridge reports of `codes[i]`, the codes before it
/// having been handled.
pub open spec fn outcome_at<H>(state: ChannelView<H>, codes: Seq<u8>, i: int) -> Signal<H> {
    signal_outcome(after_codes(state, codes.take(i)), codes[i])
}

/// The channel after uninterrupted polls with `handles` in turn.
pub open spec fn after_polls<H>(state: ChannelView<H>, handles: Seq<H>) -> ChannelView<H>
    decreases handles.len(),
{
    if handles.len() == 0 {
        state
    } else {
        after_poll(after_polls(state, handles.drop_last()), handles.last())
    }
}

/// What the poll that follows the first `i` polls with `handles` gives.
pub open spec fn yielded_at<H>(state: ChannelView<H>, handles: Seq<H>, i: int) -> Poll<u8> {
    poll_result(after_polls(state, handles.take(i)))
}

/// The smaller of a length and the queue's capacity.
pub open spec fn kept(len: nat) -> int {
    if len <= QUEUE_CAPACITY {
        len as int
    } else {
        QUEUE_CAPACITY as int
    }
}

/// Codes signalled to an empty queue are kept in order, up to the capacity.
pub proof fn lemma_codes_are_kept<H>(state: ChannelView<H>, codes: Seq<u8>)
    requires
        state.queue == Some(Seq::<u8>::empty()),
    ensures
        after_codes(state, codes).queue == Some(codes.take(kept(codes.len()))),
    decreases codes.len(),
{
    if codes.len() > 0 {
        let before = codes.drop_last();
        lemma_codes_are_kept(state, before);
        let queued = before.take(kept(before.len()));
        if before.len() < QUEUE_CAPACITY {
            assert(queued =~= before);
            assert(queued.push(codes.last()) =~= codes.take(kept(codes.len())));
        } else {
            assert(queued =~= codes.take(kept(codes.len())));
        }
    } else {
        assert(codes.take(0) =~= Seq::<u8>::empty());
    }
}

/// Polls take the queued codes from the front, one each, whatever is
/// registered; a poll of an emptied queue suspends.
pub proof fn lemma_polls_drain<H>(state: ChannelView<H>, handles: Seq<H>, i: int)
    requires
        state.queue is Some,
        0 <= i <= handles.len(),
        i <= state.queue->0.len(),
    ensures
        after_polls(state, handles.take(i)).queue == Some(state.queue->0.skip(i)),
        i < state.queue->0.len() ==> yielded_at(state, handles, i) == Poll::Ready(
            state.queue->0[i],
        ),
        i == state.queue->0.len() ==> yielded_at(state, handles, i) == Poll::<u8>::Pending,
    decreases i,
{
    let codes = state.queue->0;
    if i > 0 {
        lemma_polls_drain(state, handles, i - 1);
        assert(handles.take(i).drop_last() =~= handles.take(i - 1));
        assert(codes.skip(i - 1).skip(1) =~= codes.skip(i));
    } else {
        assert(codes.skip(0) =~= codes);
    }
}

/// First in, first out: codes signalled to an empty queue, no more of them
/// than it holds, are yielded by as many polls in the order in which they
/// were signalled, and the poll after them suspends.
pub proof fn lemma_fifo<H>(state: ChannelView<H>, codes: Seq<u8>, handles: Seq<H>)
    requires
        state.queue == Some(Seq::<u8>::empty()),
        codes.len() <= QUEUE_CAPACITY,
        handles.len() == codes.len(),
    ensures
        forall|i: int|
            0 <= i < codes.len() ==> #[trigger] yielded_at(after_codes(state, codes), handles, i)
                == Poll::Ready(codes[i]),
        yielded_at(after_codes(state, codes), handles, codes.len() as int) == Poll::<u8>::Pending,
{
    lemma_codes_are_kept(state, codes);
    assert(codes.take(codes.len() as int) =~= codes);
    let full = after_codes(state, codes);
    assert forall|i: int| 0 <= i < codes.len() implies #[trigger] yielded_at(full, handles, i)
        == Poll::Ready(codes[i]) by {
        lemma_polls_drain(full, handles, i);
    }
    lemma_polls_drain(full, handles, codes.len() as int);
}

/// Bounded drop: of more codes than the queue holds, signalled to an empty
/// queue before any poll, exactly those past the capacity are dropped; the
/// polls yield the first `QUEUE_CAPACITY` of them in order and then suspend.
pub proof fn lemma_bounded_drop<H>(state: ChannelView<H>, codes: Seq<u8>, handles: Seq<H>)
    requires
        state.queue == Some(Seq::<u8>::empty()),
        codes.len() > QUEUE_CAPACITY,
        handles.len() == QUEUE_CAPACITY,
    ensures
        forall|i: int|
            0 <= i < codes.len() ==> (#[trigger] outcome_at(state, codes, i) == Signal::<
                H,
            >::Dropped <==> i >= QUEUE_CAPACITY),
        forall|i: int|
            0 <= i < QUEUE_CAPACITY ==> #[trigger] yielded_at(
                after_codes(state, codes),
                handles,
                i,
            ) == Poll::Ready(codes[i]),
        yielded_at(after_codes(state, codes), handles, QUEUE_CAPACITY as int) == Poll::<
            u8,
        >::Pending,
{
    assert forall|i: int| 0 <= i < codes.len() implies (#[trigger] outcome_at(state, codes, i)
        == Signal::<H>::Dropped <==> i >= QUEUE_CAPACITY) by {
        lemma_codes_are_kept(state, codes.take(i));
    }
    lemma_codes_are_kept(state, codes);
    let full = after_codes(state, codes);
    assert forall|i: int| 0 <= i < QUEUE_CAPACITY implies #[trigger] yielded_at(full, handles, i)
        == Poll::Ready(codes[i]) by {
        lemma_polls_drain(full, handles, i);
    }
    lemma_polls_drain(full, handles, QUEUE_CAPACITY as int);
}

/// One thing that happens to a channel: the interrupt bridge handles a code,
/// or the stream is polled with a handle.
pub enum ChannelEvent<H> {
    Signal(u8),
    Poll(H),
}

/// The channel after one event.
pub open spec fn after_event<H>(state: ChannelView<H>, event: ChannelEvent<H>) -> ChannelView<H> {
    match event {
        ChannelEvent::Signal(code) => after_signal(state, code),
        ChannelEvent::Poll(handle) => after_poll(state, handle),
    }
}

/// The channel after `events` in turn.
pub open spec fn after_events<H>(state: ChannelView<H>, events: Seq<ChannelEvent<H>>) -> ChannelView<
    H,
>
    decreases events.len(),
{
    if events.len() == 0 {
        state
    } else {
        after_event(after_events(state, events.drop_last()), events.last())
    }
}

/// The codes that the queue took in the course of `events`, in order.
pub open spec fn accepted<H>(state: ChannelView<H>, events: Seq<ChannelEvent<H>>) -> Seq<u8>
    decreases events.len(),
{
    if events.len() == 0 {
        Seq::empty()
    } else {
        let before = after_events(state, events.drop_last());
        let earlier = accepted(state, events.drop_last());
        match events.last() {
            ChannelEvent::Signal(code) => if signal_outcome(before, code) is Delivered {
                earlier.push(code)
            } else {
                earlier
            },
            ChannelEvent::Poll(_) => earlier,
        }
    }
}

/// The codes that the stream yielded in the course of `events`, in order.
pub open spec fn delivered<H>(state: ChannelView<H>, events: Seq<ChannelEvent<H>>) -> Seq<u8>
    decreases events.len(),
{
    if events.len() == 0 {
        Seq::empty()
    } else {
        let before = after_events(state, events.drop_last());
        let earlier = delivered(state, events.drop_last());
        match events.last() {
            ChannelEvent::Signal(_) => earlier,
            ChannelEvent::Poll(_) => match poll_result(before) {
                Poll::Ready(code) => earlier.push(code),
                Poll::Pending => earlier,
            },
        }
    }
}

/// First in, first out, however signals and polls interleave: the codes
/// queued at the start followed by the codes taken since are the codes
/// yielded since followed by the codes still queued. So the stream yields
/// the codes that the queue took, in the order in which it took them, none
/// twice and none left out, and the queue never holds more than its
/// capacity.
pub proof fn lemma_fifo_interleaved<H>(state: ChannelView<H>, events: Seq<ChannelEvent<H>>)
    requires
        state.queue is Some,
        state.queue->0.len() <= QUEUE_CAPACITY,
    ensures
        after_events(state, events).queue is Some,
        after_events(state, events).queue->0.len() <= QUEUE_CAPACITY,
        state.queue->0 + accepted(state, events) == delivered(state, events) + after_events(
            state,
            events,
        ).queue->0,
    decreases events.len(),
{
    let start = state.queue->0;
    if events.len() == 0 {
        assert(start + Seq::<u8>::empty() =~= Seq::<u8>::empty() + start);
    } else {
        let earlier = events.drop_last();
        lemma_fifo_interleaved(state, earlier);
        let before = after_events(state, earlier);
        let queued = before.queue->0;
        let after = after_events(state, events).queue->0;
        match events.last() {
            ChannelEvent::Signal(code) => {
                if queued.len() < QUEUE_CAPACITY {
                    assert(start + accepted(state, earlier).push(code) =~= (start + accepted(
                        state,
                        earlier,
                    )).push(code));
                    assert(delivered(state, earlier) + queued.push(code) =~= (delivered(
                        state,
                        earlier,
                    ) + queued).push(code));
                }
            },
            ChannelEvent::Poll(handle) => {
                if queued.len() > 0 {
                    assert(delivered(state, earlier).push(queued[0]) + queued.skip(1)
                        =~= delivered(state, earlier) + queued);
                }
            },
        }
    }
}

/// No lost wake-up, first half: a code that the interrupt bridge queues after
/// a poll's first look has found nothing, and before the poll registers its
/// handle, is found by the same poll's second look, which yields it and
/// withdraws the handle; and a whole poll made at that point in its place
/// yields the code as well.
pub proof fn lemma_second_look_finds_late_code<H>(state: ChannelView<H>, code: u8, handle: H)
    requires
        state.queue is Some,
        first_look(state) is None,
    ensures
        ({
            let interrupted = after_signal(after_first_look(state), code);
            let registered = after_register(interrupted, handle);
            &&& second_look(registered) == Poll::Ready(code)
            &&& poll_result(registered) == Poll::Ready(code)
            &&& after_second_look(registered).queue == Some(Seq::<u8>::empty())
            &&& after_second_look(registered).waker is None
        }),
{
    let empty = Seq::<u8>::empty();
    assert(state.queue->0 =~= empty);
    assert(empty.push(code).skip(1) =~= empty);
}

/// No lost wake-up, second half: after a poll that suspends, the next code
/// that the interrupt bridge queues hands out the handle which that poll
/// registered, and the poll that follows yields the code.
pub proof fn lemma_suspended_consumer_is_woken<H>(state: ChannelView<H>, handle: H, code: u8)
    requires
        state.queue is Some,
        poll_result(state) is Pending,
    ensures
        after_poll(state, handle).waker == Some(handle),
        signal_outcome(after_poll(state, handle), code) == Signal::Delivered(Some(handle)),
        poll_result(after_signal(after_poll(state, handle), code)) == Poll::Ready(code),
{
}

} // verus!
