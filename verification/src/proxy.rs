//! The queue through which other threads hand user events to the loop.

use vstd::prelude::*;
use std::collections::VecDeque;

verus! {

/// Why a user event was not accepted.
#[derive(Clone, Copy, Debug, PartialEq, Eq, Structural)]
pub enum SendError {
    /// The loop has exited, or is exiting.
    LoopClosed,
}

/// The mathematical state of a proxy queue.
pub struct ProxyModel<T> {
    /// The events sent and not yet drained, the oldest first.
    pub pending: Seq<T>,
    pub closed: bool,
}

impl<T> ProxyModel<T> {
    /// An open queue that holds nothing.
    pub open spec fn initial() -> ProxyModel<T> {
        ProxyModel { pending: Seq::empty(), closed: false }
    }

    /// The queue after sending `event`: a closed queue takes nothing.
    pub open spec fn send(self, event: T) -> ProxyModel<T> {
        if self.closed {
            self
        } else {
            ProxyModel { pending: self.pending.push(event), ..self }
        }
    }

    /// The queue after sending each of `events`, the first one first.
    pub open spec fn send_all(self, events: Seq<T>) -> ProxyModel<T>
        decreases events.len(),
    {
        if events.len() == 0 {
            self
        } else {
            self.send_all(events.drop_last()).send(events.last())
        }
    }

    /// The queue after everything it held was taken.
    pub open spec fn drained(self) -> ProxyModel<T> {
        ProxyModel { pending: Seq::empty(), ..self }
    }

    /// The queue once the loop takes no more events.
    pub open spec fn close(self) -> ProxyModel<T> {
        ProxyModel { closed: true, ..self }
    }
}

/// An open queue holds everything that was sent to it, behind what it held and in the
/// order of the sends; a closed queue takes nothing.
pub proof fn lemma_proxy_send_all<T>(q: ProxyModel<T>, events: Seq<T>)
    ensures
        q.send_all(events) == if q.closed {
            q
        } else {
            ProxyModel { pending: q.pending + events, closed: false }
        },
    decreases events.len(),
{
    if events.len() == 0 {
    } else {
        lemma_proxy_send_all(q, events.drop_last());
        assert((q.pending + events.drop_last()).push(events.last()) =~= q.pending + events);
    }
}

/// The pending user events. The loop's owner shares it with the proxies behind a lock;
/// the loop drains it at every wake.
#[derive(Debug)]
pub struct ProxyQueue<T> {
    pending: VecDeque<T>,
    closed: bool,
}

impl<T> View for ProxyQueue<T> {
    type V = ProxyModel<T>;

    closed spec fn view(&self) -> ProxyModel<T> {
        ProxyModel { pending: self.pending@, closed: self.closed }
    }
}

impl<T> ProxyQueue<T> {
    /// An open queue that holds nothing.
    pub fn new() -> (q: ProxyQueue<T>)
        ensures
            q@ == ProxyModel::<T>::initial(),
    {
        ProxyQueue { pending: VecDeque::new(), closed: false }
    }

    /// Queues `event` for the loop, behind those sent before. Fails, and drops the event,
    /// once the queue is closed.
    pub fn send_event(&mut self, event: T) -> (r: Result<(), SendError>)
        ensures
            final(self)@ == old(self)@.send(event),
            old(self)@.closed <==> r == Err::<(), SendError>(SendError::LoopClosed),
            !old(self)@.closed <==> r == Ok::<(), SendError>(()),
    {
        if self.closed {
            Err(SendError::LoopClosed)
        } else {
            self.pending.push_back(event);
            Ok(())
        }
    }

    /// Takes every pending event, the oldest first.
    pub fn drain(&mut self) -> (events: VecDeque<T>)
        ensures
            events@ == old(self)@.pending,
            final(self)@ == old(self)@.drained(),
    {
        let mut events: VecDeque<T> = VecDeque::new();
        std::mem::swap(&mut self.pending, &mut events);
        events
    }

    /// Closes the queue: the loop takes no more events.
    pub fn close(&mut self)
        ensures
            final(self)@ == old(self)@.close(),
    {
        self.closed = true;
    }

    /// Whether the queue refuses events.
    pub fn is_closed(&self) -> (r: bool)
        ensures
            r == self@.closed,
    {
        self.closed
    }

    /// How many events wait to be drained.
    pub fn len(&self) -> (n: usize)
        ensures
            n == self@.pending.len(),
    {
        self.pending.len()
    }

    /// Whether no event waits to be drained.
    pub fn is_empty(&self) -> (r: bool)
        ensures
            r == (self@.pending.len() == 0),
    {
        self.pending.len() == 0
    }
}

} // verus!
