//! Runs of the loop: what it delivers over any series of inputs.
//!
//! A run starts from a state of the loop and takes inputs one by one: a step, the return
//! of a callback, a native notification, a user event, a redraw request, or the end of the
//! native application. It records the events that the steps handed to the callback
//! and the events that the loop took into its queue. The theorems of this module hold of
//! every run.

use vstd::prelude::*;
use crate::control_flow::{ControlFlow, ControlModel};
use crate::event::{Event, WindowId};
use crate::event_loop::{
    as_user_events,
    lemma_inputs_keep_wf,
    lemma_send_all,
    lemma_step_keeps_wf,
    Action,
    LoopModel,
    Phase,
};
use crate::redraw::with_requests;
use crate::time::Instant;
use crate::translate::{translation, NativeEvent, Translation};

verus! {

/// One thing that happens to the loop.
pub enum Input<T> {
    /// The owner asks for the next action at this time.
    Step(Instant),
    /// A callback returns and leaves this scheduling mode in its handle.
    SetControlFlow(ControlFlow),
    /// The native event source reports something.
    Native(NativeEvent),
    /// A user event arrives.
    Send(T),
    /// A window asks for a redraw.
    RequestRedraw(WindowId),
    /// The native application announces its end.
    Exit,
}

/// A run so far.
pub struct Run<T> {
    pub state: LoopModel<T>,
    /// The events handed to the callback, the first one first.
    pub delivered: Seq<Event<T>>,
    /// The events taken into the queue, the first one first.
    pub accepted: Seq<Event<T>>,
}

impl<T> Run<T> {
    /// The run that has taken no input yet.
    pub open spec fn start(m: LoopModel<T>) -> Run<T> {
        Run { state: m, delivered: Seq::empty(), accepted: Seq::empty() }
    }

    /// The run after `event` arrived.
    pub open spec fn offer(self, event: Event<T>) -> Run<T> {
        Run {
            state: self.state.enqueue(event),
            accepted: if self.state.accepts(event) {
                self.accepted.push(event)
            } else {
                self.accepted
            },
            ..self
        }
    }

    /// The run after one more input.
    pub open spec fn after(self, input: Input<T>) -> Run<T> {
        match input {
            Input::Step(now) => Run {
                state: self.state.step(now).0,
                delivered: match self.state.step(now).1 {
                    Action::Deliver(event) => self.delivered.push(event),
                    _ => self.delivered,
                },
                ..self
            },
            Input::SetControlFlow(cf) => Run { state: self.state.set_control_flow(cf), ..self },
            Input::Native(native) => match translation::<T>(native) {
                Translation::Queue(event) => self.offer(event),
                Translation::Redraw(id) => Run { state: self.state.request_redraw(id), ..self },
                Translation::Suppressed => self,
            },
            Input::Send(event) => self.offer(Event::UserEvent(event)),
            Input::RequestRedraw(id) => Run { state: self.state.request_redraw(id), ..self },
            Input::Exit => Run { state: self.state.exit(), ..self },
        }
    }

    /// The run after each of `inputs`, the first one first.
    pub open spec fn after_all(self, inputs: Seq<Input<T>>) -> Run<T>
        decreases inputs.len(),
    {
        if inputs.len() == 0 {
            self
        } else {
            self.after_all(inputs.drop_last()).after(inputs.last())
        }
    }
}

/// The run from state `m` over `inputs`.
pub open spec fn run<T>(m: LoopModel<T>, inputs: Seq<Input<T>>) -> Run<T> {
    Run::start(m).after_all(inputs)
}

/// What one callback after the other left in its handle, as inputs.
pub open spec fn writes_as_inputs<T>(writes: Seq<ControlFlow>) -> Seq<Input<T>> {
    Seq::new(writes.len(), |i: int| Input::SetControlFlow(writes[i]))
}

/// Redraw requests, as inputs.
pub open spec fn requests_as_inputs<T>(ids: Seq<WindowId>) -> Seq<Input<T>> {
    Seq::new(ids.len(), |i: int| Input::RequestRedraw(ids[i]))
}

/// User events, as inputs.
pub open spec fn sends_as_inputs<T>(events: Seq<T>) -> Seq<Input<T>> {
    Seq::new(events.len(), |i: int| Input::Send(events[i]))
}

/// Those of the delivered events that came through the queue, in the order of delivery.
pub open spec fn queued_among<T>(delivered: Seq<Event<T>>) -> Seq<Event<T>>
    decreases delivered.len(),
{
    if delivered.len() == 0 {
        Seq::empty()
    } else if delivered.last().is_queueable() {
        queued_among(delivered.drop_last()).push(delivered.last())
    } else {
        queued_among(delivered.drop_last())
    }
}

/// The windows for which a redraw was delivered since `MainEventsCleared` was last
/// delivered, in the order of delivery.
pub open spec fn redraws_since_cleared<T>(delivered: Seq<Event<T>>) -> Seq<WindowId>
    decreases delivered.len(),
{
    if delivered.len() == 0 {
        Seq::empty()
    } else {
        match delivered.last() {
            Event::MainEventsCleared => Seq::empty(),
            Event::RedrawRequested(id) => redraws_since_cleared(delivered.drop_last()).push(id),
            _ => redraws_since_cleared(delivered.drop_last()),
        }
    }
}

proof fn lemma_queued_among_push<T>(delivered: Seq<Event<T>>, event: Event<T>)
    ensures
        queued_among(delivered.push(event)) == if event.is_queueable() {
            queued_among(delivered).push(event)
        } else {
            queued_among(delivered)
        },
{
    assert(delivered.push(event).drop_last() =~= delivered);
}

proof fn lemma_redraws_since_cleared_push<T>(delivered: Seq<Event<T>>, event: Event<T>)
    ensures
        redraws_since_cleared(delivered.push(event)) == match event {
            Event::MainEventsCleared => Seq::empty(),
            Event::RedrawRequested(id) => redraws_since_cleared(delivered).push(id),
            _ => redraws_since_cleared(delivered),
        },
{
    assert(delivered.push(event).drop_last() =~= delivered);
}

/// A run over two series of inputs, one after the other, is the run over the first
/// continued over the second.
pub proof fn lemma_after_all_concat<T>(r: Run<T>, first: Seq<Input<T>>, second: Seq<Input<T>>)
    ensures
        r.after_all(first + second) == r.after_all(first).after_all(second),
    decreases second.len(),
{
    if second.len() > 0 {
        lemma_after_all_concat(r, first, second.drop_last());
        assert((first + second).drop_last() =~= first + second.drop_last());
    }
}

proof fn lemma_after_keeps_wf<T>(r: Run<T>, input: Input<T>)
    requires
        r.state.wf(),
    ensures
        r.after(input).state.wf(),
{
    lemma_inputs_keep_wf(r.state);
    if let Input::Step(now) = input {
        lemma_step_keeps_wf(r.state, now);
    }
}

/// Every run from a well-formed state ends in a well-formed state.
pub proof fn lemma_run_keeps_wf<T>(r: Run<T>, inputs: Seq<Input<T>>)
    requires
        r.state.wf(),
    ensures
        r.after_all(inputs).state.wf(),
    decreases inputs.len(),
{
    if inputs.len() > 0 {
        lemma_run_keeps_wf(r, inputs.drop_last());
        lemma_after_keeps_wf(r.after_all(inputs.drop_last()), inputs.last());
    }
}

/// The queue is first in, first out, and loses nothing: at every point of every run, the
/// queued events delivered so far, followed by those that still wait, are the events that
/// waited at the start followed by those taken in since, each in its order. So events
/// leave in the order in which they came, none is delivered twice and none is merged with
/// another.
pub proof fn lemma_queue_is_fifo<T>(m: LoopModel<T>, inputs: Seq<Input<T>>)
    requires
        m.wf(),
    ensures
        queued_among(run(m, inputs).delivered) + run(m, inputs).state.queue == m.queue + run(
            m,
            inputs,
        ).accepted,
    decreases inputs.len(),
{
    if inputs.len() > 0 {
        let before = run(m, inputs.drop_last());
        lemma_queue_is_fifo(m, inputs.drop_last());
        lemma_run_keeps_wf(Run::start(m), inputs.drop_last());
        match inputs.last() {
            Input::Step(now) => {
                // A delivered event that came through the queue was its head.
                if let Action::Deliver(event) = before.state.step(now).1 {
                    lemma_queued_among_push(before.delivered, event);
                }
            },
            Input::Native(native) => {
                if let Translation::Queue(event) = translation::<T>(native) {
                    lemma_offer_is_fifo(before, event, m.queue);
                }
            },
            Input::Send(event) => {
                lemma_offer_is_fifo(before, Event::UserEvent(event), m.queue);
            },
            _ => {},
        }
    }
}

proof fn lemma_offer_is_fifo<T>(r: Run<T>, event: Event<T>, waited: Seq<Event<T>>)
    requires
        queued_among(r.delivered) + r.state.queue == waited + r.accepted,
    ensures
        queued_among(r.offer(event).delivered) + r.offer(event).state.queue == waited + r.offer(
            event,
        ).accepted,
{
    if r.state.accepts(event) {
        assert(waited + r.accepted.push(event) =~= (waited + r.accepted).push(event));
    }
}

/// `LoopDestroyed` is delivered at most once in any run, nothing is delivered after it, and
/// once it is delivered the loop is destroyed.
pub proof fn lemma_loop_destroyed_is_last<T>(m: LoopModel<T>, inputs: Seq<Input<T>>)
    requires
        m.wf(),
    ensures
        forall|i: int|
            0 <= i < run(m, inputs).delivered.len() && (#[trigger] run(
                m,
                inputs,
            ).delivered[i]) is LoopDestroyed ==> i == run(m, inputs).delivered.len() - 1,
        run(m, inputs).delivered.len() > 0 && run(m, inputs).delivered.last() is LoopDestroyed
            ==> run(m, inputs).state.phase is Destroyed,
    decreases inputs.len(),
{
    let end = run(m, inputs);
    if inputs.len() > 0 {
        let before = run(m, inputs.drop_last());
        lemma_loop_destroyed_is_last(m, inputs.drop_last());
        lemma_run_keeps_wf(Run::start(m), inputs.drop_last());
        // Until `LoopDestroyed` is delivered the loop is not destroyed, and a destroyed
        // loop delivers nothing.
        assert forall|i: int|
            0 <= i < end.delivered.len() && (#[trigger] end.delivered[i]) is LoopDestroyed implies i
            == end.delivered.len() - 1 by {}
    }
}

/// Of a loop that is exiting: whatever arrives and whatever is written, its control-flow
/// machine does not change any more, it takes no event into its queue, and it delivers
/// `LoopDestroyed` at its first step and nothing else, before or after. A loop that is
/// already destroyed delivers nothing at all.
pub proof fn lemma_exit_is_terminal<T>(m: LoopModel<T>, inputs: Seq<Input<T>>)
    requires
        m.wf(),
        m.is_closed(),
    ensures
        run(m, inputs).state.control == m.control,
        run(m, inputs).state.queue == m.queue,
        run(m, inputs).accepted == Seq::<Event<T>>::empty(),
        run(m, inputs).state.phase is Destroyed <==> (m.phase is Destroyed || has_step(inputs)),
        run(m, inputs).delivered == if !(m.phase is Destroyed) && has_step(inputs) {
            seq![Event::<T>::LoopDestroyed]
        } else {
            Seq::<Event<T>>::empty()
        },
    decreases inputs.len(),
{
    if inputs.len() > 0 {
        let shorter = inputs.drop_last();
        lemma_exit_is_terminal(m, shorter);
        if has_step(inputs) && !(inputs.last() is Step) {
            let k = choose|k: int| 0 <= k < inputs.len() && inputs[k] is Step;
            assert(shorter[k] is Step);
        }
    }
}

/// Whether one of the inputs is a step.
pub open spec fn has_step<T>(inputs: Seq<Input<T>>) -> bool {
    exists|k: int| 0 <= k < inputs.len() && inputs[k] is Step
}

/// In every run, no window gets two redraws within one cycle: among the redraws delivered
/// since `MainEventsCleared` was last delivered, no window occurs twice.
pub proof fn lemma_one_redraw_per_cycle<T>(m: LoopModel<T>, inputs: Seq<Input<T>>)
    requires
        m.wf(),
    ensures
        redraws_since_cleared(run(m, inputs).delivered).no_duplicates(),
        run(m, inputs).state.phase is Redraw ==> (redraws_since_cleared(run(m, inputs).delivered)
            + run(m, inputs).state.servicing).no_duplicates(),
        run(m, inputs).state.phase is MainCleared ==> redraws_since_cleared(
            run(m, inputs).delivered,
        ).len() == 0,
    decreases inputs.len(),
{
    let end = run(m, inputs);
    if inputs.len() > 0 {
        let before = run(m, inputs.drop_last());
        lemma_one_redraw_per_cycle(m, inputs.drop_last());
        lemma_run_keeps_wf(Run::start(m), inputs.drop_last());
        let since = redraws_since_cleared(before.delivered);
        if before.state.phase is Redraw {
            lemma_take_keeps_no_duplicates(since + before.state.servicing, since.len() as int);
        }
        if let Input::Step(now) = inputs.last() {
            if let Action::Deliver(event) = before.state.step(now).1 {
                lemma_redraws_since_cleared_push(before.delivered, event);
                // A redraw moves a window from those that are owed one to those that got
                // one.
                if before.state.phase is Redraw && before.state.servicing.len() > 0 {
                    assert(since.push(before.state.servicing[0])
                        + before.state.servicing.drop_first() =~= since
                        + before.state.servicing);
                }
            }
        }
        let since_end = redraws_since_cleared(end.delivered);
        if end.state.phase is Redraw {
            assert(since_end =~= (since_end + end.state.servicing).take(since_end.len() as int));
            lemma_take_keeps_no_duplicates(
                since_end + end.state.servicing,
                since_end.len() as int,
            );
        }
    }
}

proof fn lemma_take_keeps_no_duplicates<A>(s: Seq<A>, n: int)
    requires
        s.no_duplicates(),
        0 <= n <= s.len(),
    ensures
        s.take(n).no_duplicates(),
{
}

/// Of the writes of one callback only the last one counts. Whatever a callback of a loop
/// that is not exiting writes to its handle, and in whatever order, once it has returned
/// the loop holds the last write and has changed in nothing else. If that callback closes
/// the cycle, the native loop is armed with the deadline of the last write; where the last
/// write asks to exit, `LoopDestroyed` comes next instead.
pub proof fn lemma_last_write_counts<T>(m: LoopModel<T>, writes: Seq<ControlFlow>, now: Instant)
    requires
        m.wf(),
        !m.is_closed(),
        writes.len() > 0,
    ensures
        ({
            let left = m.control.current.written(writes);
            let returned = run(m, seq![Input::SetControlFlow(left)]);
            &&& left == writes.last()
            &&& returned.state == (LoopModel {
                control: ControlModel { current: writes.last(), ..m.control },
                ..m
            })
            &&& returned.delivered == Seq::<Event<T>>::empty()
            &&& m.phase is RedrawCleared && !writes.last().is_exit() ==> returned.state.step(
                now,
            ).1 == Action::<T>::Block(writes.last().deadline_at(now))
            &&& writes.last().is_exit() ==> returned.state.step(now).1 == Action::<T>::Deliver(
                Event::LoopDestroyed,
            )
        }),
{
    let left = m.control.current.written(writes);
    let inputs = seq![Input::<T>::SetControlFlow(left)];
    assert(run(m, inputs.drop_last()) == Run::start(m));
}

/// A run over callbacks that only write the scheduling mode changes the control-flow
/// machine and nothing else.
pub proof fn lemma_writes<T>(r: Run<T>, writes: Seq<ControlFlow>)
    ensures
        r.after_all(writes_as_inputs(writes)) == (Run {
            state: LoopModel { control: r.state.control.set_all(writes), ..r.state },
            ..r
        }),
    decreases writes.len(),
{
    if writes.len() > 0 {
        lemma_writes(r, writes.drop_last());
        assert(writes_as_inputs::<T>(writes).drop_last() =~= writes_as_inputs::<T>(
            writes.drop_last(),
        ));
    }
}

/// A run over redraw requests changes the list of waiting windows and nothing else.
pub proof fn lemma_requests<T>(r: Run<T>, ids: Seq<WindowId>)
    ensures
        r.after_all(requests_as_inputs(ids)) == (Run {
            state: LoopModel { requested: with_requests(r.state.requested, ids), ..r.state },
            ..r
        }),
    decreases ids.len(),
{
    if ids.len() > 0 {
        lemma_requests(r, ids.drop_last());
        assert(requests_as_inputs::<T>(ids).drop_last() =~= requests_as_inputs::<T>(
            ids.drop_last(),
        ));
    }
}

/// A run over user events sent to an open loop changes the queue and nothing else: the
/// loop takes every one of them, behind what waits already and in the order of the sends.
pub proof fn lemma_sends<T>(r: Run<T>, events: Seq<T>)
    requires
        !r.state.is_closed(),
    ensures
        r.after_all(sends_as_inputs(events)) == (Run {
            state: r.state.send_all(events),
            accepted: r.accepted + as_user_events(events),
            ..r
        }),
        r.state.send_all(events) == (LoopModel {
            queue: r.state.queue + as_user_events(events),
            ..r.state
        }),
    decreases events.len(),
{
    lemma_send_all(r.state, events);
    if events.len() > 0 {
        let shorter = events.drop_last();
        lemma_sends(r, shorter);
        lemma_send_all(r.state, shorter);
        assert(sends_as_inputs::<T>(events).drop_last() =~= sends_as_inputs::<T>(shorter));
        assert((r.accepted + as_user_events(shorter)).push(Event::UserEvent(events.last()))
            =~= r.accepted + as_user_events(events));
    }
}

/// The actions that the steps of a run returned, the first one first.
pub open spec fn actions_of<T>(m: LoopModel<T>, inputs: Seq<Input<T>>) -> Seq<Action<T>>
    decreases inputs.len(),
{
    if inputs.len() == 0 {
        Seq::empty()
    } else {
        match inputs.last() {
            Input::Step(now) => actions_of(m, inputs.drop_last()).push(
                run(m, inputs.drop_last()).state.step(now).1,
            ),
            _ => actions_of(m, inputs.drop_last()),
        }
    }
}

/// The events of those actions that deliver one, in order.
pub open spec fn events_of<T>(actions: Seq<Action<T>>) -> Seq<Event<T>>
    decreases actions.len(),
{
    if actions.len() == 0 {
        Seq::empty()
    } else {
        match actions.last() {
            Action::Deliver(event) => events_of(actions.drop_last()).push(event),
            _ => events_of(actions.drop_last()),
        }
    }
}

/// The phase in which the loop stands once it has returned `action`.
pub open spec fn phase_after<T>(action: Action<T>) -> Phase {
    match action {
        Action::Deliver(Event::NewEvents(_)) => Phase::Dispatch,
        Action::Deliver(Event::MainEventsCleared) => Phase::MainCleared,
        Action::Deliver(Event::RedrawRequested(_)) => Phase::Redraw,
        Action::Deliver(Event::RedrawEventsCleared) => Phase::RedrawCleared,
        Action::Deliver(Event::LoopDestroyed) => Phase::Destroyed,
        Action::Deliver(_) => Phase::Dispatch,
        Action::Block(_) => Phase::Idle,
        Action::Exit(_) => Phase::Destroyed,
    }
}

/// Whether a loop that stands in `phase` may return `action`: the order of a cycle.
/// `NewEvents` opens a cycle, queued events follow it, `MainEventsCleared` ends them,
/// redraws follow that, `RedrawEventsCleared` ends them, and then the native loop blocks.
/// `LoopDestroyed` may cut in anywhere, once; after it the loop only leaves.
pub open spec fn may_come_in<T>(phase: Phase, action: Action<T>) -> bool {
    match action {
        Action::Deliver(Event::NewEvents(_)) => phase is Idle,
        Action::Deliver(Event::MainEventsCleared) => phase is Dispatch,
        Action::Deliver(Event::RedrawRequested(_)) => phase is MainCleared || phase is Redraw,
        Action::Deliver(Event::RedrawEventsCleared) => phase is MainCleared || phase is Redraw,
        Action::Deliver(Event::LoopDestroyed) => !(phase is Destroyed),
        Action::Deliver(_) => phase is Dispatch,
        Action::Block(_) => phase is RedrawCleared,
        Action::Exit(_) => phase is Destroyed,
    }
}

/// Whether `next` may be the action that a loop returns right after `previous`.
pub open spec fn may_follow<T>(previous: Action<T>, next: Action<T>) -> bool {
    may_come_in(phase_after(previous), next)
}

/// A step returns an action that the phase allows, and leaves the loop in the phase that
/// belongs to that action.
pub proof fn lemma_step_in_order<T>(m: LoopModel<T>, now: Instant)
    requires
        m.wf(),
    ensures
        may_come_in(m.phase, m.step(now).1),
        m.step(now).0.phase == phase_after(m.step(now).1),
{
    if m.phase is Dispatch && m.queue.len() > 0 {
        assert(m.queue[0].is_queueable());
    }
}

/// Every run keeps the order of the cycle, whatever arrives in between and whatever the
/// callbacks write: each action is one that may follow the action before it, the first is
/// one that the phase at the start allows, and the loop stands in the phase that belongs
/// to the last.
pub proof fn lemma_actions_in_order<T>(m: LoopModel<T>, inputs: Seq<Input<T>>)
    requires
        m.wf(),
    ensures
        forall|i: int|
            0 <= i < actions_of(m, inputs).len() - 1 ==> may_follow(
                #[trigger] actions_of(m, inputs)[i],
                actions_of(m, inputs)[i + 1],
            ),
        actions_of(m, inputs).len() > 0 ==> may_come_in(m.phase, actions_of(m, inputs)[0]),
        run(m, inputs).state.phase == if actions_of(m, inputs).len() > 0 {
            phase_after(actions_of(m, inputs).last())
        } else {
            m.phase
        },
        run(m, inputs).delivered == events_of(actions_of(m, inputs)),
    decreases inputs.len(),
{
    if inputs.len() > 0 {
        let shorter = inputs.drop_last();
        let before = run(m, shorter);
        let acted = actions_of(m, shorter);
        lemma_actions_in_order(m, shorter);
        lemma_run_keeps_wf(Run::start(m), shorter);
        if let Input::Step(now) = inputs.last() {
            lemma_step_in_order(before.state, now);
            let all = actions_of(m, inputs);
            assert(all.drop_last() =~= acted);
            assert forall|i: int| 0 <= i < all.len() - 1 implies may_follow(
                #[trigger] all[i],
                all[i + 1],
            ) by {}
        }
    }
}

} // verus!
