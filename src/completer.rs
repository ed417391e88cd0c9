//! Completion primitives: the states of a one-shot result slot and of a
//! multi-shot item channel. Whoever shares them between producer and
//! consumer (behind a lock) keeps the wake-up cue of type `W` in them and
//! wakes it when a transition hands it back.
use vstd::prelude::*;
use std::collections::VecDeque;

verus! {

/// The state of a one-shot result slot.
pub enum State<T, W> {
    /// Nothing delivered, nobody waiting.
    Incomplete,
    /// Nothing delivered; the consumer waits with this wake-up cue.
    Waiting(W),
    /// Filled: `Some(value)` until the consumer takes it, `None` when cancelled
    /// or already taken.
    Complete(Option<T>),
}

/// What the consumer observes when it polls.
pub enum PollResult<T> {
    /// Not filled yet; the consumer's cue is installed.
    Pending,
    /// The delivered value.
    Ready(T),
    /// Cancelled, or the value was already taken.
    Cancelled,
}

impl<T, W> State<T, W> {
    /// A slot, filled when `value` is `Some`.
    pub fn new(value: Option<T>) -> (r: Self)
        ensures
            value is None ==> r is Incomplete,
            value is Some ==> r == State::<T, W>::Complete(value),
    {
        match value {
            None => State::Incomplete,
            Some(v) => State::Complete(Some(v)),
        }
    }

    /// Whether the slot was filled or cancelled.
    pub fn is_completed(&self) -> (r: bool)
        ensures
            r == self is Complete,
    {
        match self {
            State::Complete(_) => true,
            _ => false,
        }
    }

    /// Fills the slot with `value`; returns the cue of a waiting consumer,
    /// to be woken. Filling twice is a registry bug, excluded here.
    pub fn complete(&mut self, value: T) -> (r: Option<W>)
        requires
            !(*old(self) is Complete),
        ensures
            *final(self) == State::<T, W>::Complete(Some(value)),
            match *old(self) {
                State::Waiting(w) => r == Some(w),
                _ => r is None,
            },
    {
        let mut prev = State::Complete(Some(value));
        core::mem::swap(self, &mut prev);
        match prev {
            State::Waiting(w) => Some(w),
            _ => None,
        }
    }

    /// Cancels the slot, whatever its state; returns the cue of a waiting
    /// consumer, to be woken so that it observes the cancellation.
    pub fn cancel(&mut self) -> (r: Option<W>)
        ensures
            *final(self) == State::<T, W>::Complete(None),
            match *old(self) {
                State::Waiting(w) => r == Some(w),
                _ => r is None,
            },
    {
        let mut prev = State::Complete(None);
        core::mem::swap(self, &mut prev);
        match prev {
            State::Waiting(w) => Some(w),
            _ => None,
        }
    }

    /// The consumer's poll: takes the value if there is one; reports a
    /// cancellation; otherwise installs `cue` and reports pending.
    pub fn poll(&mut self, cue: W) -> (r: PollResult<T>)
        ensures
            match *old(self) {
                State::Complete(Some(v)) => r == PollResult::Ready(v) && *final(self)
                    == State::<T, W>::Complete(None),
                State::Complete(None) => r is Cancelled && *final(self) == *old(self),
                _ => r is Pending && *final(self) == State::<T, W>::Waiting(cue),
            },
    {
        match self {
            State::Complete(_) => {},
            _ => {
                *self = State::Waiting(cue);
                return PollResult::Pending;
            },
        }
        let mut prev = State::Complete(None);
        core::mem::swap(self, &mut prev);
        match prev {
            State::Complete(Some(v)) => PollResult::Ready(v),
            _ => PollResult::Cancelled,
        }
    }
}

/// What a waiting single invocation receives when its completion arrives.
pub enum Delivery<V> {
    /// This result value, to be decoded into the awaited type.
    Value(V),
    /// The awaited type's default (unit for a method that returns nothing).
    Default,
    /// Nothing: the waiter is cancelled.
    Cancel,
}

/// A value that is available at once.
pub struct CompletedFuture<T> {
    data: Option<T>,
}

impl<T> CompletedFuture<T> {
    /// Holds `data`, ready to be taken.
    pub fn new(data: T) -> (r: Self)
        ensures
            r.value() == Some(data),
    {
        CompletedFuture { data: Some(data) }
    }

    /// What is still held.
    pub closed spec fn value(&self) -> Option<T> {
        self.data
    }

    /// Always complete.
    pub fn is_completed(&self) -> (r: bool)
        ensures
            r,
    {
        true
    }

    /// Takes the value out, once.
    pub fn take(&mut self) -> (r: Option<T>)
        ensures
            r == old(self).value(),
            final(self).value() is None,
    {
        self.data.take()
    }
}

/// The state of a multi-shot channel: queued items, the closed flag, and the
/// cue of a waiting consumer.
pub struct StreamState<T, W> {
    items: VecDeque<T>,
    closed: bool,
    waiting: Option<W>,
}

/// What the consumer of a channel observes when it polls.
pub enum StreamPoll<T> {
    /// No item yet and not closed; the consumer's cue is installed.
    Pending,
    /// The oldest queued item.
    Item(T),
    /// Closed and drained.
    Ended,
}

impl<T, W> StreamState<T, W> {
    /// The queued items, oldest first.
    pub closed spec fn queued(&self) -> Seq<T> {
        self.items@
    }

    /// Whether the producer closed the channel.
    pub closed spec fn is_closed(&self) -> bool {
        self.closed
    }

    /// The cue of a waiting consumer, if any.
    pub closed spec fn waiter(&self) -> Option<W> {
        self.waiting
    }

    /// An open, empty channel.
    pub fn new() -> (r: Self)
        ensures
            r.queued() == Seq::<T>::empty(),
            !r.is_closed(),
            r.waiter() is None,
    {
        StreamState { items: VecDeque::new(), closed: false, waiting: None }
    }

    /// Queues `item` at the back unless the channel is closed; returns the
    /// cue of a waiting consumer, to be woken.
    pub fn push(&mut self, item: T) -> (r: Option<W>)
        ensures
            old(self).is_closed() ==> final(self).queued() == old(self).queued(),
            !old(self).is_closed() ==> final(self).queued() == old(self).queued().push(item),
            final(self).is_closed() == old(self).is_closed(),
            r == old(self).waiter(),
            final(self).waiter() is None,
    {
        if !self.closed {
            self.items.push_back(item);
        }
        self.waiting.take()
    }

    /// Marks the end of the stream; returns the cue of a waiting consumer.
    pub fn close(&mut self) -> (r: Option<W>)
        ensures
            final(self).queued() == old(self).queued(),
            final(self).is_closed(),
            r == old(self).waiter(),
            final(self).waiter() is None,
    {
        self.closed = true;
        self.waiting.take()
    }

    /// The consumer's poll: the oldest item, the end once closed and
    /// drained, or pending with `cue` installed.
    pub fn poll_next(&mut self, cue: W) -> (r: StreamPoll<T>)
        ensures
            old(self).queued().len() > 0 ==> r == StreamPoll::Item(old(self).queued()[0])
                && final(self).queued() == old(self).queued().drop_first() && final(self).waiter()
                == old(self).waiter(),
            old(self).queued().len() == 0 && old(self).is_closed() ==> r is Ended
                && final(self).queued() == old(self).queued(),
            old(self).queued().len() == 0 && !old(self).is_closed() ==> r is Pending
                && final(self).queued() == old(self).queued() && final(self).waiter() == Some(cue),
            final(self).is_closed() == old(self).is_closed(),
    {
        match self.items.pop_front() {
            Some(item) => StreamPoll::Item(item),
            None => {
                if self.closed {
                    StreamPoll::Ended
                } else {
                    self.waiting = Some(cue);
                    StreamPoll::Pending
                }
            },
        }
    }
}

} // verus!
