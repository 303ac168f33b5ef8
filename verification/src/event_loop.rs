//! The callback driver: which event the application sees next, and when the native loop
//! blocks again.
//!
//! The driver does not call the application and does not block. Its owner asks it for the
//! next [`Action`], carries that action out, and asks again: deliver one event to the
//! callback, block the native loop, or leave. Between two actions the owner feeds it
//! what arrived: native notifications, user events, redraw requests, and the scheduling
//! mode that the callback left in its handle.

use vstd::prelude::*;
use std::collections::VecDeque;
use crate::control_flow::{ControlFlow, ControlFlowState, ControlModel, WaitState};
use crate::event::{Event, WindowId};
use crate::proxy::{ProxyModel, ProxyQueue, SendError};
use crate::redraw::{lemma_with_request, with_request, RedrawQueue};
use crate::time::Instant;
use crate::translate::{translate, translation, NativeEvent, Translation};

verus! {

/// Where in its cycle the loop stands.
#[derive(Clone, Copy, Debug, PartialEq, Eq, Structural)]
pub enum Phase {
    /// Between two cycles: the loop has not started or the native loop blocks.
    Idle,
    /// The cycle is open; queued events are being delivered.
    Dispatch,
    /// `MainEventsCleared` was delivered; the redraws come next.
    MainCleared,
    /// Redraws are being delivered.
    Redraw,
    /// `RedrawEventsCleared` was delivered; the native loop is armed next.
    RedrawCleared,
    /// `LoopDestroyed` was delivered; nothing follows.
    Destroyed,
}

/// What the owner of the loop does next.
#[derive(Clone, Debug, PartialEq)]
pub enum Action<T> {
    /// Call the application callback once, with this event.
    Deliver(Event<T>),
    /// Block the native loop until an event arrives, or until the deadline where there is
    /// one; then feed what arrived.
    Block(Option<Instant>),
    /// Leave the loop; the process exits with this code.
    Exit(i32),
}

/// The mathematical state of the loop.
pub struct LoopModel<T> {
    pub control: ControlModel,
    pub phase: Phase,
    /// The events that wait for delivery, the oldest first.
    pub queue: Seq<Event<T>>,
    /// The windows that asked for a redraw since the last redraw phase began.
    pub requested: Seq<WindowId>,
    /// The windows whose redraw this cycle still owes.
    pub servicing: Seq<WindowId>,
}

impl<T> LoopModel<T> {
    /// The loop before its first cycle.
    pub open spec fn initial() -> LoopModel<T> {
        LoopModel {
            control: ControlModel::initial(),
            phase: Phase::Idle,
            queue: Seq::empty(),
            requested: Seq::empty(),
            servicing: Seq::empty(),
        }
    }

    /// No window waits twice for a redraw, only queueable events are queued, and a destroyed
    /// loop is an exiting one.
    pub open spec fn wf(self) -> bool {
        &&& self.requested.no_duplicates()
        &&& self.servicing.no_duplicates()
        &&& forall|i: int| 0 <= i < self.queue.len() ==> (#[trigger] self.queue[i]).is_queueable()
        &&& self.phase is Destroyed ==> self.control.is_terminal()
    }

    /// A loop that is exiting, or has exited, takes no more events.
    pub open spec fn is_closed(self) -> bool {
        self.control.is_terminal()
    }

    /// The loop after a callback returned and left `cf` in its handle.
    pub open spec fn set_control_flow(self, cf: ControlFlow) -> LoopModel<T> {
        LoopModel { control: self.control.set(cf), ..self }
    }

    /// Whether the loop takes `event` into its queue.
    pub open spec fn accepts(self, event: Event<T>) -> bool {
        !self.is_closed() && event.is_queueable()
    }

    /// The loop after `event` arrived: it goes to the back of the queue if the loop
    /// accepts it, and is dropped otherwise.
    pub open spec fn enqueue(self, event: Event<T>) -> LoopModel<T> {
        if self.accepts(event) {
            LoopModel { queue: self.queue.push(event), ..self }
        } else {
            self
        }
    }

    /// The loop after a user event arrived.
    pub open spec fn send(self, event: T) -> LoopModel<T> {
        self.enqueue(Event::UserEvent(event))
    }

    /// The loop after each of `events` arrived, the first one first.
    pub open spec fn send_all(self, events: Seq<T>) -> LoopModel<T>
        decreases events.len(),
    {
        if events.len() == 0 {
            self
        } else {
            self.send_all(events.drop_last()).send(events.last())
        }
    }

    /// The loop after window `id` asked for a redraw.
    pub open spec fn request_redraw(self, id: WindowId) -> LoopModel<T> {
        LoopModel { requested: with_request(self.requested, id), ..self }
    }

    /// The loop after a native notification arrived.
    pub open spec fn native(self, native: NativeEvent) -> LoopModel<T> {
        match translation::<T>(native) {
            Translation::Queue(event) => self.enqueue(event),
            Translation::Redraw(id) => self.request_redraw(id),
            Translation::Suppressed => self,
        }
    }

    /// The loop after the native application announced its end: it exits with code 0 unless
    /// it was exiting already.
    pub open spec fn exit(self) -> LoopModel<T> {
        self.set_control_flow(ControlFlow::ExitWithCode(0))
    }

    /// One step of the redraw phase: the next window that is owed a redraw, or the end of
    /// the phase.
    pub open spec fn serve_redraw(self) -> (LoopModel<T>, Action<T>) {
        if self.servicing.len() > 0 {
            (
                LoopModel { phase: Phase::Redraw, servicing: self.servicing.drop_first(), ..self },
                Action::Deliver(Event::RedrawRequested(self.servicing[0])),
            )
        } else {
            (
                LoopModel { phase: Phase::RedrawCleared, ..self },
                Action::Deliver(Event::RedrawEventsCleared),
            )
        }
    }

    /// One step of the loop at time `now`: the state that follows and the action to carry
    /// out.
    ///
    /// A destroyed loop only leaves. An exiting loop delivers `LoopDestroyed`, whatever its
    /// phase. Otherwise a cycle runs in order: `NewEvents` with the cause of the wake, the
    /// queued events one by one, `MainEventsCleared`, one `RedrawRequested` for each window
    /// that asked since the redraw phase before, `RedrawEventsCleared`, and then the native
    /// loop is armed with the deadline of the mode in effect.
    pub open spec fn step(self, now: Instant) -> (LoopModel<T>, Action<T>) {
        if self.phase is Destroyed {
            (self, Action::Exit(self.control.current.code()))
        } else if self.control.is_terminal() {
            (LoopModel { phase: Phase::Destroyed, ..self }, Action::Deliver(Event::LoopDestroyed))
        } else {
            match self.phase {
                Phase::Idle => (
                    LoopModel { phase: Phase::Dispatch, control: self.control.woken(), ..self },
                    Action::Deliver(Event::NewEvents(self.control.start_cause(now))),
                ),
                Phase::Dispatch => if self.queue.len() > 0 {
                    (
                        LoopModel { queue: self.queue.drop_first(), ..self },
                        Action::Deliver(self.queue[0]),
                    )
                } else {
                    (
                        LoopModel { phase: Phase::MainCleared, ..self },
                        Action::Deliver(Event::MainEventsCleared),
                    )
                },
                Phase::MainCleared => (LoopModel {
                    servicing: self.requested,
                    requested: Seq::empty(),
                    ..self
                }).serve_redraw(),
                Phase::Redraw => self.serve_redraw(),
                Phase::RedrawCleared => (
                    LoopModel { phase: Phase::Idle, control: self.control.armed(now), ..self },
                    Action::Block(self.control.current.deadline_at(now)),
                ),
                Phase::Destroyed => (self, Action::Exit(self.control.current.code())),
            }
        }
    }
}

/// Whatever arrives and whatever a callback leaves in its handle, the loop stays well
/// formed.
pub proof fn lemma_inputs_keep_wf<T>(m: LoopModel<T>)
    requires
        m.wf(),
    ensures
        forall|cf: ControlFlow| (#[trigger] m.set_control_flow(cf)).wf(),
        forall|e: Event<T>| (#[trigger] m.enqueue(e)).wf(),
        forall|t: T| (#[trigger] m.send(t)).wf(),
        forall|id: WindowId| (#[trigger] m.request_redraw(id)).wf(),
        forall|n: NativeEvent| (#[trigger] m.native(n)).wf(),
        m.exit().wf(),
{
    assert forall|id: WindowId| (#[trigger] m.request_redraw(id)).wf() by {
        lemma_with_request(m.requested, id);
    }
    assert forall|n: NativeEvent| (#[trigger] m.native(n)).wf() by {
        if let Translation::Redraw(id) = translation::<T>(n) {
            lemma_with_request(m.requested, id);
        }
    }
}

/// User events, as the loop delivers them.
pub open spec fn as_user_events<T>(events: Seq<T>) -> Seq<Event<T>> {
    Seq::new(events.len(), |i: int| Event::UserEvent(events[i]))
}

/// An open loop takes every user event that arrives, behind what waits already and in the
/// order of arrival; a closed loop takes none. Nothing else changes.
pub proof fn lemma_send_all<T>(m: LoopModel<T>, events: Seq<T>)
    ensures
        m.send_all(events) == if m.is_closed() {
            m
        } else {
            LoopModel { queue: m.queue + as_user_events(events), ..m }
        },
    decreases events.len(),
{
    if events.len() > 0 {
        let shorter = events.drop_last();
        lemma_send_all(m, shorter);
        assert((m.queue + as_user_events(shorter)).push(Event::UserEvent(events.last()))
            =~= m.queue + as_user_events(events));
    }
}

/// A step of the redraw phase keeps the loop well formed.
pub proof fn lemma_serve_redraw_keeps_wf<T>(m: LoopModel<T>)
    requires
        m.wf(),
    ensures
        m.serve_redraw().0.wf(),
{
}

/// A step keeps the loop well formed.
pub proof fn lemma_step_keeps_wf<T>(m: LoopModel<T>, now: Instant)
    requires
        m.wf(),
    ensures
        m.step(now).0.wf(),
{
    lemma_serve_redraw_keeps_wf(m);
    lemma_serve_redraw_keeps_wf(
        LoopModel { servicing: m.requested, requested: Seq::empty(), ..m },
    );
}

/// Of a loop that is not blocked without a deadline: a step delivers `NewEvents` with a
/// cancelled wait exactly when the loop stood between two cycles, was not exiting, had a
/// deadline armed, and woke before it.
pub proof fn lemma_wait_cancelled_iff<T>(m: LoopModel<T>, now: Instant)
    requires
        m.wf(),
        !(m.control.wait matches WaitState::Blocked { mode: ControlFlow::Wait, .. }),
    ensures
        (m.step(now).1 matches Action::Deliver(Event::NewEvents(cause)) && cause is WaitCancelled)
            <==> (m.control.wait matches WaitState::Blocked {
            mode: ControlFlow::WaitUntil(t),
            ..
        } && !now.reached(t) && m.phase is Idle && !m.is_closed()),
{
}

/// An event loop, driven one action at a time.
#[derive(Debug)]
pub struct EventLoop<T> {
    control: ControlFlowState,
    phase: Phase,
    queue: VecDeque<Event<T>>,
    requested: RedrawQueue,
    servicing: RedrawQueue,
}

impl<T> View for EventLoop<T> {
    type V = LoopModel<T>;

    closed spec fn view(&self) -> LoopModel<T> {
        LoopModel {
            control: self.control@,
            phase: self.phase,
            queue: self.queue@,
            requested: self.requested@,
            servicing: self.servicing@,
        }
    }
}

impl<T> EventLoop<T> {
    /// The loop's state is well formed. This holds of every loop that `new` made, whatever
    /// was done with it since.
    pub open spec fn wf(&self) -> bool {
        self@.wf()
    }

    /// A loop that has not run yet: it polls, and nothing waits.
    pub fn new() -> (lp: EventLoop<T>)
        ensures
            lp@ == LoopModel::<T>::initial(),
            lp.wf(),
    {
        EventLoop {
            control: ControlFlowState::new(),
            phase: Phase::Idle,
            queue: VecDeque::new(),
            requested: RedrawQueue::new(),
            servicing: RedrawQueue::new(),
        }
    }

    /// Where in its cycle the loop stands.
    pub fn phase(&self) -> (p: Phase)
        ensures
            p == self@.phase,
    {
        self.phase
    }

    /// The scheduling mode in effect: what the callback finds in its handle.
    pub fn control_flow(&self) -> (cf: ControlFlow)
        ensures
            cf == self@.control.current,
    {
        self.control.current()
    }

    /// The wake deadline that the native loop is armed with, if any.
    pub fn timer(&self) -> (d: Option<Instant>)
        ensures
            d == self@.control.timer(),
    {
        self.control.timer()
    }

    /// Takes over the scheduling mode that the callback left in its handle when it
    /// returned. Once the loop is exiting, this changes nothing.
    pub fn set_control_flow(&mut self, cf: ControlFlow)
        ensures
            old(self).wf() ==> final(self).wf(),
            final(self)@ == old(self)@.set_control_flow(cf),
    {
        self.control.set(cf);
    }

    /// Whether the loop is exiting or has exited.
    pub fn is_closed(&self) -> (r: bool)
        ensures
            r == self@.is_closed(),
    {
        self.control.is_terminal()
    }

    /// The code that the process exits with: 0 unless the mode is `ExitWithCode`.
    pub fn exit_code(&self) -> (c: i32)
        ensures
            c == self@.control.current.code(),
    {
        self.control.exit_code()
    }

    /// How many events wait for delivery.
    pub fn pending_events(&self) -> (n: usize)
        ensures
            n == self@.queue.len(),
    {
        self.queue.len()
    }

    /// How many windows asked for a redraw since the last redraw phase began.
    pub fn pending_redraws(&self) -> (n: usize)
        ensures
            n == self@.requested.len(),
    {
        self.requested.len()
    }

    /// Puts `event` at the back of the queue; returns whether the loop accepted it. A
    /// closed loop accepts nothing, and no loop accepts a phase marker.
    pub fn queue_event(&mut self, event: Event<T>) -> (accepted: bool)
        ensures
            old(self).wf() ==> final(self).wf(),
            final(self)@ == old(self)@.enqueue(event),
            accepted == old(self)@.accepts(event),
    {
        if self.control.is_terminal() || !event.queueable() {
            false
        } else {
            self.queue.push_back(event);
            true
        }
    }

    /// Puts a user event at the back of the queue. Fails once the loop is closed.
    pub fn send_event(&mut self, event: T) -> (r: Result<(), SendError>)
        ensures
            old(self).wf() ==> final(self).wf(),
            final(self)@ == old(self)@.send(event),
            old(self)@.is_closed() <==> r == Err::<(), SendError>(SendError::LoopClosed),
            !old(self)@.is_closed() <==> r == Ok::<(), SendError>(()),
    {
        if self.queue_event(Event::UserEvent(event)) {
            Ok(())
        } else {
            Err(SendError::LoopClosed)
        }
    }

    /// Puts the user events that a proxy queue held at the back of the queue, in their
    /// order. A closed loop takes none of them.
    pub fn absorb(&mut self, events: VecDeque<T>)
        ensures
            old(self).wf() ==> final(self).wf(),
            final(self)@ == old(self)@.send_all(events@),
            final(self)@ == if old(self)@.is_closed() {
                old(self)@
            } else {
                LoopModel { queue: old(self)@.queue + as_user_events(events@), ..old(self)@ }
            },
    {
        proof {
            lemma_send_all(self@, events@);
        }
        let mut events = events;
        let ghost all = events@;
        let ghost mut done: Seq<T> = Seq::empty();
        loop
            invariant
                old(self).wf() ==> self.wf(),
                self@ == old(self)@.send_all(done),
                done + events@ == all,
            ensures
                old(self).wf() ==> self.wf(),
                self@ == old(self)@.send_all(all),
            decreases events@.len(),
        {
            match events.pop_front() {
                Some(event) => {
                    proof {
                        assert(done.push(event).drop_last() =~= done);
                        done = done.push(event);
                    }
                    let _ = self.send_event(event);
                },
                None => {
                    proof {
                    }
                    break ;
                },
            }
        }
    }

    /// Puts the user events that `proxy` holds at the back of the queue, in their order,
    /// and closes `proxy` if the loop is closed: from then on every send through it fails.
    pub fn absorb_proxy(&mut self, proxy: &mut ProxyQueue<T>)
        ensures
            old(self).wf() ==> final(self).wf(),
            final(self)@ == old(self)@.send_all(old(proxy)@.pending),
            final(self)@ == if old(self)@.is_closed() {
                old(self)@
            } else {
                LoopModel {
                    queue: old(self)@.queue + as_user_events(old(proxy)@.pending),
                    ..old(self)@
                }
            },
            final(proxy)@ == (ProxyModel {
                pending: Seq::<T>::empty(),
                closed: old(proxy)@.closed || old(self)@.is_closed(),
            }),
    {
        proof {
            lemma_send_all(self@, proxy@.pending);
        }
        let events = proxy.drain();
        self.absorb(events);
        if self.is_closed() {
            proxy.close();
        }
    }

    /// Records that window `id` asked for a redraw; returns whether it was not waiting
    /// already.
    pub fn request_redraw(&mut self, id: WindowId) -> (added: bool)
        ensures
            old(self).wf() ==> final(self).wf(),
            final(self)@ == old(self)@.request_redraw(id),
            final(self)@.requested.contains(id),
            added == !old(self)@.requested.contains(id),
    {
        self.requested.request(id)
    }

    /// Takes in one notification of the native event source.
    pub fn handle_native(&mut self, native: NativeEvent)
        ensures
            old(self).wf() ==> final(self).wf(),
            final(self)@ == old(self)@.native(native),
    {
        match translate::<T>(native) {
            Translation::Queue(event) => {
                let _ = self.queue_event(event);
            },
            Translation::Redraw(id) => {
                let _ = self.request_redraw(id);
            },
            Translation::Suppressed => {},
        }
    }

    /// Takes in that the native application is about to end: the loop exits with code 0
    /// unless it was exiting already.
    pub fn exit(&mut self)
        ensures
            old(self).wf() ==> final(self).wf(),
            final(self)@ == old(self)@.exit(),
    {
        self.set_control_flow(ControlFlow::ExitWithCode(0));
    }

    fn serve_redraw(&mut self) -> (action: Action<T>)
        ensures
            old(self).wf() ==> final(self).wf(),
            (final(self)@, action) == old(self)@.serve_redraw(),
    {
        proof {
            if self.wf() {
                lemma_serve_redraw_keeps_wf(self@);
            }
        }
        match self.servicing.pop() {
            Some(id) => {
                self.phase = Phase::Redraw;
                Action::Deliver(Event::RedrawRequested(id))
            },
            None => {
                self.phase = Phase::RedrawCleared;
                Action::Deliver(Event::RedrawEventsCleared)
            },
        }
    }

    /// Takes one step at time `now` and returns the action to carry out.
    pub fn next(&mut self, now: Instant) -> (action: Action<T>)
        ensures
            old(self).wf() ==> final(self).wf(),
            (final(self)@, action) == old(self)@.step(now),
    {
        proof {
            if self.wf() {
                lemma_step_keeps_wf(self@, now);
            }
        }
        if self.phase == Phase::Destroyed {
            return Action::Exit(self.control.exit_code());
        }
        if self.control.is_terminal() {
            self.phase = Phase::Destroyed;
            return Action::Deliver(Event::LoopDestroyed);
        }
        match self.phase {
            Phase::Idle => {
                let cause = self.control.wake(now);
                self.phase = Phase::Dispatch;
                Action::Deliver(Event::NewEvents(cause))
            },
            Phase::Dispatch => match self.queue.pop_front() {
                Some(event) => Action::Deliver(event),
                None => {
                    self.phase = Phase::MainCleared;
                    Action::Deliver(Event::MainEventsCleared)
                },
            },
            Phase::MainCleared => {
                self.servicing = self.requested.take();
                self.serve_redraw()
            },
            Phase::Redraw => self.serve_redraw(),
            Phase::RedrawCleared => {
                let deadline = self.control.arm(now);
                self.phase = Phase::Idle;
                Action::Block(deadline)
            },
            Phase::Destroyed => Action::Exit(self.control.exit_code()),
        }
    }
}

} // verus!
