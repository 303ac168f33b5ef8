//! One wake, one cycle: what the loop delivers while the callbacks leave it alone.
//!
//! The theorems of this module follow the loop through steps in a row, with nothing
//! arriving and nothing written in between. Each step has its own time.

use vstd::prelude::*;
use crate::event::{Event, WindowId};
use crate::event_loop::{as_user_events, Action, LoopModel, Phase};
use crate::proxy::{lemma_proxy_send_all, ProxyModel};
use crate::redraw::{lemma_with_requests, with_requests};
use crate::time::Instant;
use crate::trace::{
    lemma_after_all_concat,
    lemma_queue_is_fifo,
    lemma_requests,
    lemma_sends,
    queued_among,
    requests_as_inputs,
    run,
    Input,
    Run,
};

verus! {

/// Steps in a row at these times, with nothing arriving in between.
pub open spec fn steps<T>(times: Seq<Instant>) -> Seq<Input<T>> {
    Seq::new(times.len(), |i: int| Input::Step(times[i]))
}

/// Windows, as the redraws that the loop delivers for them.
pub open spec fn as_redraws<T>(ids: Seq<WindowId>) -> Seq<Event<T>> {
    Seq::new(ids.len(), |i: int| Event::RedrawRequested(ids[i]))
}

/// Whether `event` occurs exactly once among the delivered events.
pub open spec fn delivered_once<T>(delivered: Seq<Event<T>>, event: Event<T>) -> bool {
    exists|i: int|
        0 <= i < delivered.len() && delivered[i] == event && forall|j: int|
            0 <= j < delivered.len() && delivered[j] == event ==> j == i
}

proof fn lemma_steps_concat<T>(r: Run<T>, first: Seq<Instant>, second: Seq<Instant>)
    ensures
        r.after_all(steps(first + second)) == r.after_all(steps(first)).after_all(steps(second)),
{
    assert(steps::<T>(first + second) =~= steps::<T>(first) + steps::<T>(second));
    lemma_after_all_concat(r, steps(first), steps(second));
}

proof fn lemma_steps_split<T>(r: Run<T>, times: Seq<Instant>, k: int)
    requires
        0 <= k <= times.len(),
    ensures
        r.after_all(steps(times)) == r.after_all(steps(times.take(k))).after_all(
            steps(times.skip(k)),
        ),
{
    assert(times =~= times.take(k) + times.skip(k));
    lemma_steps_concat(r, times.take(k), times.skip(k));
}

proof fn lemma_one_step<T>(r: Run<T>, times: Seq<Instant>)
    requires
        times.len() == 1,
    ensures
        r.after_all(steps(times)) == r.after(Input::Step(times[0])),
{
    assert(r.after_all(steps::<T>(times).drop_last()) == r);
}

proof fn lemma_last_step<T>(r: Run<T>, times: Seq<Instant>)
    requires
        times.len() > 0,
    ensures
        r.after_all(steps(times)) == r.after_all(steps(times.drop_last())).after(
            Input::Step(times.last()),
        ),
{
    assert(steps::<T>(times).drop_last() =~= steps::<T>(times.drop_last()));
}

/// The dispatch phase delivers the events that wait one per step, the oldest first.
pub proof fn lemma_dispatch_pass<T>(r: Run<T>, times: Seq<Instant>)
    requires
        !r.state.is_closed(),
        r.state.phase is Dispatch,
        times.len() <= r.state.queue.len(),
    ensures
        r.after_all(steps(times)) == (Run {
            state: LoopModel { queue: r.state.queue.skip(times.len() as int), ..r.state },
            delivered: r.delivered + r.state.queue.take(times.len() as int),
            ..r
        }),
    decreases times.len(),
{
    let k = times.len() as int;
    let waiting = r.state.queue;
    if k == 0 {
        assert(waiting.skip(0) =~= waiting);
    } else {
        lemma_dispatch_pass(r, times.drop_last());
        lemma_last_step(r, times);
        let before = r.after_all(steps(times.drop_last()));
        assert(before.state.queue.drop_first() =~= waiting.skip(k));
        assert((r.delivered + waiting.take(k - 1)).push(waiting[k - 1]) =~= r.delivered
            + waiting.take(k));
    }
}

/// The redraw phase delivers one redraw per step, for the windows that are owed one, in
/// their order.
pub proof fn lemma_redraw_pass<T>(r: Run<T>, times: Seq<Instant>)
    requires
        !r.state.is_closed(),
        r.state.phase is Redraw,
        times.len() <= r.state.servicing.len(),
    ensures
        r.after_all(steps(times)) == (Run {
            state: LoopModel { servicing: r.state.servicing.skip(times.len() as int), ..r.state },
            delivered: r.delivered + as_redraws(r.state.servicing.take(times.len() as int)),
            ..r
        }),
    decreases times.len(),
{
    let k = times.len() as int;
    let owed = r.state.servicing;
    if k == 0 {
        assert(owed.skip(0) =~= owed);
    } else {
        lemma_redraw_pass(r, times.drop_last());
        lemma_last_step(r, times);
        let before = r.after_all(steps(times.drop_last()));
        assert(before.state.servicing.drop_first() =~= owed.skip(k));
        assert((r.delivered + as_redraws(owed.take(k - 1))).push(
            Event::RedrawRequested(owed[k - 1]),
        ) =~= r.delivered + as_redraws(owed.take(k)));
    }
}

/// The steps that follow `MainEventsCleared` deliver one redraw for each window that asked,
/// in the order in which the windows first asked, and then `RedrawEventsCleared`.
pub proof fn lemma_redraw_phase<T>(r: Run<T>, times: Seq<Instant>)
    requires
        !r.state.is_closed(),
        r.state.phase is MainCleared,
        times.len() == r.state.requested.len() + 1,
    ensures
        r.after_all(steps(times)) == (Run {
            state: LoopModel {
                phase: Phase::RedrawCleared,
                requested: Seq::empty(),
                servicing: Seq::empty(),
                ..r.state
            },
            delivered: r.delivered + as_redraws(r.state.requested) + seq![
                Event::RedrawEventsCleared,
            ],
            ..r
        }),
{
    let asked = r.state.requested;
    let n = asked.len() as int;
    let end = r.after_all(steps(times));
    if n == 0 {
        lemma_one_step(r, times);
        assert(end.state.servicing =~= Seq::<WindowId>::empty());
        assert(end.delivered =~= r.delivered + as_redraws(asked) + seq![
            Event::RedrawEventsCleared,
        ]);
    } else {
        // The first step takes the list of the windows that asked and serves its head.
        lemma_steps_split(r, times, 1);
        lemma_one_step(r, times.take(1));
        let first = r.after(Input::Step(times[0]));
        // The next steps serve the rest, and the last step closes the phase.
        let later = times.skip(1);
        lemma_last_step(first, later);
        lemma_redraw_pass(first, later.drop_last());
        assert(end.state.servicing =~= Seq::<WindowId>::empty());
        assert(end.delivered =~= r.delivered + as_redraws(asked) + seq![
            Event::RedrawEventsCleared,
        ]);
    }
}

/// The dispatch phase delivers the events that wait, the oldest first, and then
/// `MainEventsCleared`.
pub proof fn lemma_dispatch_phase<T>(r: Run<T>, times: Seq<Instant>)
    requires
        !r.state.is_closed(),
        r.state.phase is Dispatch,
        times.len() == r.state.queue.len() + 1,
    ensures
        r.after_all(steps(times)) == (Run {
            state: LoopModel { phase: Phase::MainCleared, queue: Seq::empty(), ..r.state },
            delivered: r.delivered + r.state.queue + seq![Event::MainEventsCleared],
            ..r
        }),
{
    let waiting = r.state.queue;
    let end = r.after_all(steps(times));
    lemma_last_step(r, times);
    lemma_dispatch_pass(r, times.drop_last());
    assert(end.state.queue =~= Seq::<Event<T>>::empty());
    assert(end.delivered =~= r.delivered + waiting + seq![Event::MainEventsCleared]);
}

/// How many steps a loop that is not exiting takes until it has delivered
/// `RedrawEventsCleared`, while nothing arrives: one for `NewEvents` if the cycle is not
/// open yet, one for each event that waits and one for `MainEventsCleared` if the queue is
/// not cleared yet, one for each window that asked, and one for `RedrawEventsCleared`.
pub open spec fn steps_to_redraws_cleared<T>(m: LoopModel<T>) -> nat {
    match m.phase {
        Phase::Idle => m.queue.len() + m.requested.len() + 3,
        Phase::Dispatch => m.queue.len() + m.requested.len() + 2,
        Phase::MainCleared => m.requested.len() + 1,
        Phase::Redraw => m.servicing.len() + 1,
        _ => 0,
    }
}

/// What a loop that is not exiting delivers until it has delivered `RedrawEventsCleared`,
/// while nothing arrives, if its first step is taken at time `first`.
pub open spec fn rest_of_cycle<T>(m: LoopModel<T>, first: Instant) -> Seq<Event<T>> {
    let redraws = as_redraws::<T>(m.requested) + seq![Event::RedrawEventsCleared];
    let queued = m.queue + seq![Event::MainEventsCleared];
    match m.phase {
        Phase::Idle => seq![Event::NewEvents(m.control.start_cause(first))] + queued + redraws,
        Phase::Dispatch => queued + redraws,
        Phase::MainCleared => redraws,
        Phase::Redraw => as_redraws::<T>(m.servicing) + seq![Event::RedrawEventsCleared],
        _ => Seq::empty(),
    }
}

/// One wake, one cycle, in a fixed order. From wherever in its cycle a loop stands, if it
/// is not exiting and nothing arrives, it delivers the rest of the cycle in order:
/// `NewEvents` with the cause of the wake, the events that wait, `MainEventsCleared`, one
/// redraw for each window that asked, and `RedrawEventsCleared`. Nothing waits after that.
pub proof fn lemma_rest_of_cycle<T>(m: LoopModel<T>, times: Seq<Instant>)
    requires
        !m.is_closed(),
        m.phase is Idle || m.phase is Dispatch || m.phase is MainCleared || m.phase is Redraw,
        times.len() == steps_to_redraws_cleared(m),
    ensures
        run(m, steps(times)) == (Run {
            state: LoopModel {
                control: if m.phase is Idle {
                    m.control.woken()
                } else {
                    m.control
                },
                phase: Phase::RedrawCleared,
                queue: if m.phase is Idle || m.phase is Dispatch {
                    Seq::empty()
                } else {
                    m.queue
                },
                requested: if m.phase is Redraw {
                    m.requested
                } else {
                    Seq::empty()
                },
                servicing: Seq::empty(),
            },
            delivered: rest_of_cycle(m, times[0]),
            accepted: Seq::empty(),
        }),
{
    let q = m.queue.len() as int;
    let r0 = Run::start(m);
    let end = r0.after_all(steps(times));
    match m.phase {
        Phase::Idle => {
            lemma_steps_split(r0, times, 1);
            lemma_one_step(r0, times.take(1));
            let r1 = r0.after_all(steps(times.take(1)));
            let after_wake = times.skip(1);
            lemma_steps_split(r1, after_wake, q + 1);
            lemma_dispatch_phase(r1, after_wake.take(q + 1));
            let r2 = r1.after_all(steps(after_wake.take(q + 1)));
            lemma_redraw_phase(r2, after_wake.skip(q + 1));
            assert(end.delivered =~= rest_of_cycle(m, times[0]));
        },
        Phase::Dispatch => {
            lemma_steps_split(r0, times, q + 1);
            lemma_dispatch_phase(r0, times.take(q + 1));
            let r2 = r0.after_all(steps(times.take(q + 1)));
            lemma_redraw_phase(r2, times.skip(q + 1));
            assert(end.delivered =~= rest_of_cycle(m, times[0]));
        },
        Phase::MainCleared => {
            lemma_redraw_phase(r0, times);
        },
        _ => {
            lemma_last_step(r0, times);
            lemma_redraw_pass(r0, times.drop_last());
            assert(end.state.servicing =~= Seq::<WindowId>::empty());
            assert(end.delivered =~= rest_of_cycle(m, times[0]));
        },
    }
}

/// From one wait to the next. A loop that is not exiting and stands between two cycles
/// takes one step more than the cycle has deliveries: with its last step it arms the
/// native loop with the deadline of the mode in effect, and blocks.
pub proof fn lemma_quiet_cycle<T>(m: LoopModel<T>, times: Seq<Instant>)
    requires
        !m.is_closed(),
        m.phase is Idle,
        times.len() == steps_to_redraws_cleared(m) + 1,
    ensures
        run(m, steps(times)) == (Run {
            state: LoopModel {
                control: m.control.woken().armed(times.last()),
                phase: Phase::Idle,
                queue: Seq::empty(),
                requested: Seq::empty(),
                servicing: Seq::empty(),
            },
            delivered: rest_of_cycle(m, times[0]),
            accepted: Seq::empty(),
        }),
        run(m, steps(times.drop_last())).state.step(times.last()).1 == Action::<T>::Block(
            m.control.current.deadline_at(times.last()),
        ),
{
    lemma_last_step(Run::start(m), times);
    lemma_rest_of_cycle(m, times.drop_last());
}

/// However often a window asks for a redraw before the redraws of a cycle begin, it gets
/// exactly one in that cycle.
pub proof fn lemma_requests_coalesce<T>(
    m: LoopModel<T>,
    ids: Seq<WindowId>,
    window: WindowId,
    times: Seq<Instant>,
)
    requires
        m.wf(),
        !m.is_closed(),
        m.phase is Idle || m.phase is Dispatch || m.phase is MainCleared,
        ids.contains(window),
        times.len() == steps_to_redraws_cleared(run(m, requests_as_inputs(ids)).state),
    ensures
        ({
            let asked = run(m, requests_as_inputs(ids)).state;
            let served = run(asked, steps(times));
            &&& asked.requested == with_requests(m.requested, ids)
            &&& served.delivered == rest_of_cycle(asked, times[0])
            &&& delivered_once(served.delivered, Event::RedrawRequested(window))
        }),
{
    lemma_requests(Run::start(m), ids);
    lemma_with_requests(m.requested, ids);
    let asked = run(m, requests_as_inputs(ids)).state;
    lemma_rest_of_cycle(asked, times);
    let served = run(asked, steps(times));
    // Where the redraws begin among the deliveries of the cycle.
    let offset = match m.phase {
        Phase::Idle => m.queue.len() + 2,
        Phase::Dispatch => m.queue.len() + 1,
        _ => 0,
    };
    let i = choose|i: int| 0 <= i < asked.requested.len() && asked.requested[i] == window;
    assert(served.delivered[offset + i] == Event::<T>::RedrawRequested(window));
    // Nothing before the redraws is a redraw, and no window is listed twice.
    assert forall|j: int|
        0 <= j < served.delivered.len() && served.delivered[j] == Event::<T>::RedrawRequested(
            window,
        ) implies j == offset + i by {}
}

/// User events sent through a proxy reach the callback one by one, in the order of the
/// sends. An open proxy queue holds what was sent to it behind what it held; the loop
/// takes what the queue held behind what waits already; and its next dispatch phase
/// delivers all of it in that order, one event per step.
pub proof fn lemma_user_events_in_order<T>(
    m: LoopModel<T>,
    proxy: ProxyModel<T>,
    events: Seq<T>,
    times: Seq<Instant>,
)
    requires
        m.wf(),
        !m.is_closed(),
        m.phase is Idle || m.phase is Dispatch,
        !proxy.closed,
        times.len() == steps_to_redraws_cleared(m.send_all(proxy.send_all(events).pending)),
    ensures
        ({
            let arrived = proxy.send_all(events).pending;
            let fed = m.send_all(arrived);
            let cycle = run(fed, steps(times)).delivered;
            &&& arrived == proxy.pending + events
            &&& fed.queue == m.queue + as_user_events(proxy.pending) + as_user_events(events)
            &&& cycle == rest_of_cycle(fed, times[0])
            &&& queued_among(cycle) == fed.queue
        }),
{
    lemma_proxy_send_all(proxy, events);
    let arrived = proxy.send_all(events).pending;
    lemma_sends(Run::start(m), arrived);
    let fed = m.send_all(arrived);
    lemma_rest_of_cycle(fed, times);
    lemma_queue_is_fifo(fed, steps(times));
}

} // verus!
