use event_loop_core::control_flow::ControlFlow;
use event_loop_core::event::{Event, StartCause, WindowEvent, WindowId};
use event_loop_core::event_loop::{Action, EventLoop, Phase};
use event_loop_core::proxy::{ProxyQueue, SendError};
use event_loop_core::time::Instant;
use event_loop_core::translate::NativeEvent;

fn at(nanos: u64) -> Instant {
    Instant::from_nanos(nanos)
}

fn deliver<T>(event: Event<T>) -> Action<T> {
    Action::Deliver(event)
}

/// Steps through a cycle without touching the loop; returns what was delivered and the
/// action that ended the cycle.
fn quiet_cycle(lp: &mut EventLoop<u32>, now: Instant) -> (Vec<Event<u32>>, Action<u32>) {
    let mut seen = Vec::new();
    loop {
        match lp.next(now) {
            Action::Deliver(event) => seen.push(event),
            other => return (seen, other),
        }
    }
}

#[test]
fn new_loop_is_idle_and_polls() {
    let lp: EventLoop<u32> = EventLoop::new();
    assert_eq!(lp.phase(), Phase::Idle);
    assert_eq!(lp.control_flow(), ControlFlow::Poll);
    assert!(!lp.is_closed());
    assert_eq!(lp.exit_code(), 0);
    assert_eq!(lp.pending_events(), 0);
    assert_eq!(lp.pending_redraws(), 0);
}

#[test]
fn first_cycle_opens_with_init() {
    let mut lp: EventLoop<u32> = EventLoop::new();
    assert_eq!(lp.next(at(0)), deliver(Event::NewEvents(StartCause::Init)));
    assert_eq!(lp.phase(), Phase::Dispatch);
}

#[test]
fn empty_cycle_runs_every_phase() {
    let mut lp: EventLoop<u32> = EventLoop::new();
    assert_eq!(lp.next(at(1)), deliver(Event::NewEvents(StartCause::Init)));
    assert_eq!(lp.next(at(2)), deliver(Event::MainEventsCleared));
    assert_eq!(lp.phase(), Phase::MainCleared);
    assert_eq!(lp.next(at(3)), deliver(Event::RedrawEventsCleared));
    assert_eq!(lp.phase(), Phase::RedrawCleared);
    assert_eq!(lp.next(at(4)), Action::Block(Some(at(4))));
    assert_eq!(lp.phase(), Phase::Idle);
}

#[test]
fn poll_rewakes_with_zero_wait() {
    let mut lp: EventLoop<u32> = EventLoop::new();
    assert_eq!(lp.next(at(0)), deliver(Event::NewEvents(StartCause::Init)));
    lp.set_control_flow(ControlFlow::Wait);
    lp.set_control_flow(ControlFlow::Poll);
    let (seen, end) = quiet_cycle(&mut lp, at(30));
    assert_eq!(seen, vec![Event::MainEventsCleared, Event::RedrawEventsCleared]);
    assert_eq!(end, Action::Block(Some(at(30))));
    assert_eq!(lp.timer(), Some(at(30)));
    assert_eq!(lp.next(at(30)), deliver(Event::NewEvents(StartCause::Poll)));
}

#[test]
fn wait_blocks_until_a_user_event_wakes_the_loop() {
    let mut lp: EventLoop<u32> = EventLoop::new();
    let mut proxy: ProxyQueue<u32> = ProxyQueue::new();
    assert_eq!(lp.next(at(0)), deliver(Event::NewEvents(StartCause::Init)));
    lp.set_control_flow(ControlFlow::Wait);
    let (_, end) = quiet_cycle(&mut lp, at(10));
    assert_eq!(end, Action::Block(None));

    assert_eq!(proxy.send_event(77), Ok(()));
    lp.absorb(proxy.drain());

    let (seen, end) = quiet_cycle(&mut lp, at(25));
    assert_eq!(
        seen,
        vec![
            Event::NewEvents(StartCause::WaitCancelled { start: at(10), requested_resume: None }),
            Event::UserEvent(77),
            Event::MainEventsCleared,
            Event::RedrawEventsCleared,
        ]
    );
    assert_eq!(end, Action::Block(None));
    assert_eq!(lp.control_flow(), ControlFlow::Wait);
    assert_eq!(lp.phase(), Phase::Idle);
}

#[test]
fn exit_with_code_seven_ends_the_process_with_seven() {
    let mut lp: EventLoop<u32> = EventLoop::new();
    assert_eq!(lp.next(at(0)), deliver(Event::NewEvents(StartCause::Init)));
    lp.set_control_flow(ControlFlow::ExitWithCode(7));
    assert_eq!(lp.next(at(1)), deliver(Event::LoopDestroyed));
    assert_eq!(lp.next(at(2)), Action::Exit(7));
    assert_eq!(lp.exit_code(), 7);
}

#[test]
fn last_write_of_a_callback_arms_the_loop() {
    let mut lp: EventLoop<u32> = EventLoop::new();
    lp.next(at(0));
    lp.next(at(0));
    assert_eq!(lp.next(at(0)), deliver(Event::RedrawEventsCleared));
    lp.set_control_flow(ControlFlow::Wait);
    lp.set_control_flow(ControlFlow::Poll);
    lp.set_control_flow(ControlFlow::WaitUntil(at(900)));
    assert_eq!(lp.control_flow(), ControlFlow::WaitUntil(at(900)));
    assert_eq!(lp.next(at(5)), Action::Block(Some(at(900))));
}

#[test]
fn control_flow_persists_across_cycles() {
    let mut lp: EventLoop<u32> = EventLoop::new();
    lp.next(at(0));
    lp.set_control_flow(ControlFlow::WaitUntil(at(1000)));
    let (_, end) = quiet_cycle(&mut lp, at(1));
    assert_eq!(end, Action::Block(Some(at(1000))));
    let (seen, end) = quiet_cycle(&mut lp, at(1000));
    assert_eq!(
        seen[0],
        Event::NewEvents(StartCause::ResumeTimeReached {
            start: at(1),
            requested_resume: at(1000)
        })
    );
    assert_eq!(lp.control_flow(), ControlFlow::WaitUntil(at(1000)));
    assert_eq!(end, Action::Block(Some(at(1000))));
}

#[test]
fn wait_until_in_the_past_wakes_at_once() {
    let mut lp: EventLoop<u32> = EventLoop::new();
    lp.next(at(0));
    lp.set_control_flow(ControlFlow::WaitUntil(at(5)));
    let (_, end) = quiet_cycle(&mut lp, at(40));
    assert_eq!(end, Action::Block(Some(at(40))));
    assert_eq!(
        lp.next(at(40)),
        deliver(Event::NewEvents(StartCause::ResumeTimeReached {
            start: at(40),
            requested_resume: at(5)
        }))
    );
}

#[test]
fn early_wake_reports_the_pending_deadline() {
    let mut lp: EventLoop<u32> = EventLoop::new();
    lp.next(at(0));
    lp.set_control_flow(ControlFlow::WaitUntil(at(500)));
    let (_, end) = quiet_cycle(&mut lp, at(100));
    assert_eq!(end, Action::Block(Some(at(500))));
    lp.handle_native(NativeEvent::WindowCloseRequested { window: 1 });
    let (seen, _) = quiet_cycle(&mut lp, at(200));
    assert_eq!(
        seen,
        vec![
            Event::NewEvents(StartCause::WaitCancelled {
                start: at(100),
                requested_resume: Some(at(500))
            }),
            Event::WindowEvent { window_id: WindowId(1), event: WindowEvent::CloseRequested },
            Event::MainEventsCleared,
            Event::RedrawEventsCleared,
        ]
    );
}

#[test]
fn exit_skips_the_rest_of_the_cycle() {
    let mut lp: EventLoop<u32> = EventLoop::new();
    lp.send_event(1).unwrap();
    lp.send_event(2).unwrap();
    lp.request_redraw(WindowId(4));
    assert_eq!(lp.next(at(0)), deliver(Event::NewEvents(StartCause::Init)));
    assert_eq!(lp.next(at(0)), deliver(Event::UserEvent(1)));
    lp.set_control_flow(ControlFlow::ExitWithCode(3));
    assert_eq!(lp.next(at(0)), deliver(Event::LoopDestroyed));
    assert_eq!(lp.phase(), Phase::Destroyed);
    assert_eq!(lp.next(at(0)), Action::Exit(3));
}

#[test]
fn loop_destroyed_is_delivered_once() {
    let mut lp: EventLoop<u32> = EventLoop::new();
    lp.next(at(0));
    lp.set_control_flow(ControlFlow::ExitWithCode(5));
    lp.set_control_flow(ControlFlow::Poll);
    lp.set_control_flow(ControlFlow::ExitWithCode(6));
    assert_eq!(lp.control_flow(), ControlFlow::ExitWithCode(5));
    assert_eq!(lp.next(at(1)), deliver(Event::LoopDestroyed));
    for tick in 2..20 {
        lp.set_control_flow(ControlFlow::Wait);
        lp.request_redraw(WindowId(tick));
        lp.handle_native(NativeEvent::WindowCloseRequested { window: tick });
        assert_eq!(lp.send_event(9), Err(SendError::LoopClosed));
        assert_eq!(lp.next(at(tick)), Action::Exit(5));
    }
    assert_eq!(lp.pending_events(), 0);
}

#[test]
fn closed_loop_takes_no_events() {
    let mut lp: EventLoop<u32> = EventLoop::new();
    lp.set_control_flow(ControlFlow::ExitWithCode(0));
    assert!(lp.is_closed());
    assert_eq!(lp.send_event(1), Err(SendError::LoopClosed));
    assert!(!lp.queue_event(Event::Resumed));
    lp.handle_native(NativeEvent::ApplicationSuspended);
    let mut proxy: ProxyQueue<u32> = ProxyQueue::new();
    proxy.send_event(3).unwrap();
    lp.absorb(proxy.drain());
    assert_eq!(lp.pending_events(), 0);
    assert_eq!(lp.next(at(0)), deliver(Event::LoopDestroyed));
    assert_eq!(lp.next(at(0)), Action::Exit(0));
}

#[test]
fn exit_before_the_first_cycle_delivers_only_loop_destroyed() {
    let mut lp: EventLoop<u32> = EventLoop::new();
    lp.exit();
    assert_eq!(lp.control_flow(), ControlFlow::ExitWithCode(0));
    assert_eq!(lp.next(at(0)), deliver(Event::LoopDestroyed));
    assert_eq!(lp.next(at(0)), Action::Exit(0));
}

#[test]
fn exit_keeps_an_earlier_exit_code() {
    let mut lp: EventLoop<u32> = EventLoop::new();
    lp.set_control_flow(ControlFlow::ExitWithCode(12));
    lp.exit();
    assert_eq!(lp.exit_code(), 12);
}

#[test]
fn redraw_requests_for_one_window_merge() {
    let mut lp: EventLoop<u32> = EventLoop::new();
    assert!(lp.request_redraw(WindowId(9)));
    for _ in 0..10 {
        assert!(!lp.request_redraw(WindowId(9)));
    }
    lp.handle_native(NativeEvent::NeedsDisplay { window: 9 });
    assert_eq!(lp.pending_redraws(), 1);
    let (seen, _) = quiet_cycle(&mut lp, at(0));
    assert_eq!(
        seen,
        vec![
            Event::NewEvents(StartCause::Init),
            Event::MainEventsCleared,
            Event::RedrawRequested(WindowId(9)),
            Event::RedrawEventsCleared,
        ]
    );
    assert_eq!(lp.pending_redraws(), 0);
}

#[test]
fn redraws_come_in_the_order_of_the_first_requests() {
    let mut lp: EventLoop<u32> = EventLoop::new();
    lp.request_redraw(WindowId(3));
    lp.request_redraw(WindowId(1));
    lp.request_redraw(WindowId(3));
    lp.request_redraw(WindowId(2));
    lp.request_redraw(WindowId(1));
    let (seen, _) = quiet_cycle(&mut lp, at(0));
    assert_eq!(
        seen,
        vec![
            Event::NewEvents(StartCause::Init),
            Event::MainEventsCleared,
            Event::RedrawRequested(WindowId(3)),
            Event::RedrawRequested(WindowId(1)),
            Event::RedrawRequested(WindowId(2)),
            Event::RedrawEventsCleared,
        ]
    );
}

#[test]
fn redraw_requested_at_main_events_cleared_is_served_in_the_same_cycle() {
    let mut lp: EventLoop<u32> = EventLoop::new();
    lp.next(at(0));
    assert_eq!(lp.next(at(0)), deliver(Event::MainEventsCleared));
    lp.request_redraw(WindowId(1));
    assert_eq!(lp.next(at(0)), deliver(Event::RedrawRequested(WindowId(1))));
    assert_eq!(lp.next(at(0)), deliver(Event::RedrawEventsCleared));
}

#[test]
fn redraw_requested_while_redrawing_waits_for_the_next_cycle() {
    let mut lp: EventLoop<u32> = EventLoop::new();
    lp.request_redraw(WindowId(1));
    lp.next(at(0));
    lp.next(at(0));
    assert_eq!(lp.next(at(0)), deliver(Event::RedrawRequested(WindowId(1))));
    assert!(lp.request_redraw(WindowId(1)));
    assert_eq!(lp.next(at(0)), deliver(Event::RedrawEventsCleared));
    assert_eq!(lp.next(at(0)), Action::Block(Some(at(0))));
    let (seen, _) = quiet_cycle(&mut lp, at(1));
    assert_eq!(
        seen,
        vec![
            Event::NewEvents(StartCause::Poll),
            Event::MainEventsCleared,
            Event::RedrawRequested(WindowId(1)),
            Event::RedrawEventsCleared,
        ]
    );
}

#[test]
fn user_events_arrive_in_the_order_of_the_sends() {
    let mut lp: EventLoop<u32> = EventLoop::new();
    let mut proxy: ProxyQueue<u32> = ProxyQueue::new();
    for value in [5, 3, 5, 8, 13] {
        assert_eq!(proxy.send_event(value), Ok(()));
    }
    lp.absorb(proxy.drain());
    assert_eq!(lp.pending_events(), 5);
    let (seen, _) = quiet_cycle(&mut lp, at(0));
    assert_eq!(
        seen,
        vec![
            Event::NewEvents(StartCause::Init),
            Event::UserEvent(5),
            Event::UserEvent(3),
            Event::UserEvent(5),
            Event::UserEvent(8),
            Event::UserEvent(13),
            Event::MainEventsCleared,
            Event::RedrawEventsCleared,
        ]
    );
}

#[test]
fn native_and_user_events_keep_their_order_of_arrival() {
    let mut lp: EventLoop<u32> = EventLoop::new();
    lp.handle_native(NativeEvent::WindowFocusChanged { window: 1, focused: true });
    lp.send_event(10).unwrap();
    lp.handle_native(NativeEvent::Housekeeping);
    lp.handle_native(NativeEvent::WindowResized { window: 2, width: 640, height: 480 });
    lp.send_event(11).unwrap();
    let (seen, _) = quiet_cycle(&mut lp, at(0));
    assert_eq!(
        seen,
        vec![
            Event::NewEvents(StartCause::Init),
            Event::WindowEvent { window_id: WindowId(1), event: WindowEvent::Focused(true) },
            Event::UserEvent(10),
            Event::WindowEvent {
                window_id: WindowId(2),
                event: WindowEvent::Resized { width: 640, height: 480 }
            },
            Event::UserEvent(11),
            Event::MainEventsCleared,
            Event::RedrawEventsCleared,
        ]
    );
}

#[test]
fn event_queued_during_dispatch_is_delivered_in_the_same_cycle() {
    let mut lp: EventLoop<u32> = EventLoop::new();
    lp.send_event(1).unwrap();
    lp.next(at(0));
    assert_eq!(lp.next(at(0)), deliver(Event::UserEvent(1)));
    lp.send_event(2).unwrap();
    assert_eq!(lp.next(at(0)), deliver(Event::UserEvent(2)));
    assert_eq!(lp.next(at(0)), deliver(Event::MainEventsCleared));
}

#[test]
fn event_queued_after_main_events_cleared_waits_for_the_next_cycle() {
    let mut lp: EventLoop<u32> = EventLoop::new();
    lp.set_control_flow(ControlFlow::Wait);
    lp.next(at(0));
    assert_eq!(lp.next(at(0)), deliver(Event::MainEventsCleared));
    lp.send_event(4).unwrap();
    assert_eq!(lp.next(at(0)), deliver(Event::RedrawEventsCleared));
    assert_eq!(lp.next(at(7)), Action::Block(None));
    assert_eq!(lp.pending_events(), 1);
    assert_eq!(
        lp.next(at(8)),
        deliver(Event::NewEvents(StartCause::WaitCancelled {
            start: at(7),
            requested_resume: None
        }))
    );
    assert_eq!(lp.next(at(8)), deliver(Event::UserEvent(4)));
}

#[test]
fn phase_markers_cannot_be_queued() {
    let mut lp: EventLoop<u32> = EventLoop::new();
    assert!(!lp.queue_event(Event::NewEvents(StartCause::Poll)));
    assert!(!lp.queue_event(Event::MainEventsCleared));
    assert!(!lp.queue_event(Event::RedrawRequested(WindowId(1))));
    assert!(!lp.queue_event(Event::RedrawEventsCleared));
    assert!(!lp.queue_event(Event::LoopDestroyed));
    assert_eq!(lp.pending_events(), 0);
    assert!(lp.queue_event(Event::Suspended));
    assert!(lp.queue_event(Event::Resumed));
    assert!(lp.queue_event(Event::UserEvent(1)));
    assert_eq!(lp.pending_events(), 3);
}

#[test]
fn queueable_tells_content_from_phase_markers() {
    let window: Event<u32> =
        Event::WindowEvent { window_id: WindowId(1), event: WindowEvent::CloseRequested };
    assert!(window.queueable());
    assert!(Event::UserEvent(1u32).queueable());
    assert!(!Event::<u32>::LoopDestroyed.queueable());
    assert!(!Event::<u32>::NewEvents(StartCause::Init).queueable());
    assert!(!Event::<u32>::RedrawRequested(WindowId(2)).queueable());
}

#[test]
fn callback_handle_round_trips_through_the_loop() {
    let mut lp: EventLoop<u32> = EventLoop::new();
    lp.next(at(0));
    let mut handle = lp.control_flow();
    assert_eq!(handle, ControlFlow::Poll);
    handle.set_wait();
    handle.set_exit_with_code(4);
    handle.set_wait_until(at(60));
    lp.set_control_flow(handle);
    assert_eq!(lp.control_flow(), ControlFlow::WaitUntil(at(60)));
    assert!(!lp.is_closed());
    let (_, end) = quiet_cycle(&mut lp, at(1));
    assert_eq!(end, Action::Block(Some(at(60))));
}

#[test]
fn last_exit_code_of_a_callback_is_the_exit_code() {
    let mut lp: EventLoop<u32> = EventLoop::new();
    lp.next(at(0));
    let mut handle = lp.control_flow();
    handle.set_exit_with_code(1);
    handle.set_exit_with_code(2);
    lp.set_control_flow(handle);
    assert_eq!(lp.next(at(0)), deliver(Event::LoopDestroyed));
    let mut handle = lp.control_flow();
    assert_eq!(handle, ControlFlow::ExitWithCode(2));
    handle.set_exit_with_code(3);
    lp.set_control_flow(handle);
    handle.set_poll();
    lp.set_control_flow(handle);
    assert_eq!(lp.next(at(0)), Action::Exit(2));
    assert_eq!(lp.exit_code(), 2);
}

#[test]
fn exiting_loop_does_not_block() {
    let mut lp: EventLoop<u32> = EventLoop::new();
    lp.next(at(0));
    lp.next(at(0));
    assert_eq!(lp.next(at(0)), deliver(Event::RedrawEventsCleared));
    lp.set_control_flow(ControlFlow::ExitWithCode(1));
    assert_eq!(lp.next(at(0)), deliver(Event::LoopDestroyed));
    assert_eq!(lp.timer(), None);
}

#[test]
fn exit_while_blocked_ends_the_loop_at_the_wake() {
    let mut lp: EventLoop<u32> = EventLoop::new();
    lp.set_control_flow(ControlFlow::Wait);
    let (_, end) = quiet_cycle(&mut lp, at(0));
    assert_eq!(end, Action::Block(None));
    lp.send_event(1).unwrap();
    lp.exit();
    assert_eq!(lp.send_event(2), Err(SendError::LoopClosed));
    assert_eq!(lp.next(at(5)), deliver(Event::LoopDestroyed));
    assert_eq!(lp.next(at(5)), Action::Exit(0));
}

#[test]
fn every_cycle_keeps_the_order_of_its_phases() {
    let mut lp: EventLoop<u32> = EventLoop::new();
    let mut seen: Vec<Event<u32>> = Vec::new();
    let mut blocks = 0;
    let mut tick = 0;
    while blocks < 4 {
        tick += 1;
        match lp.next(at(tick)) {
            Action::Deliver(event) => {
                // The application stirs the loop at every callback.
                if tick % 3 == 0 {
                    lp.request_redraw(WindowId(tick % 2));
                }
                if tick % 5 == 0 && seen.len() < 40 {
                    lp.send_event(tick as u32).unwrap();
                }
                lp.set_control_flow(ControlFlow::WaitUntil(at(tick + 2)));
                seen.push(event);
            }
            Action::Block(_) => {
                blocks += 1;
                lp.handle_native(NativeEvent::WindowFocusChanged { window: 1, focused: true });
                lp.handle_native(NativeEvent::NeedsDisplay { window: 1 });
            }
            Action::Exit(_) => panic!("the loop was not asked to exit"),
        }
    }
    // 0: a cycle may open, 1: queued events, 2: redraws, 3: the cycle may close.
    let mut stage = 0;
    let mut redrawn: Vec<WindowId> = Vec::new();
    for event in &seen {
        match event {
            Event::NewEvents(_) => {
                assert!(stage == 0 || stage == 3);
                stage = 1;
            }
            Event::MainEventsCleared => {
                assert_eq!(stage, 1);
                stage = 2;
                redrawn.clear();
            }
            Event::RedrawRequested(id) => {
                assert_eq!(stage, 2);
                assert!(!redrawn.contains(id));
                redrawn.push(*id);
            }
            Event::RedrawEventsCleared => {
                assert_eq!(stage, 2);
                stage = 3;
            }
            Event::LoopDestroyed => panic!("the loop was not asked to exit"),
            _ => assert_eq!(stage, 1),
        }
    }
    assert_eq!(stage, 3);
    assert_eq!(seen.iter().filter(|e| matches!(e, Event::NewEvents(_))).count(), 4);
}

#[test]
fn absorb_proxy_takes_the_events_and_leaves_the_proxy_open() {
    let mut lp: EventLoop<u32> = EventLoop::new();
    let mut proxy: ProxyQueue<u32> = ProxyQueue::new();
    lp.send_event(1).unwrap();
    proxy.send_event(2).unwrap();
    proxy.send_event(3).unwrap();
    lp.absorb_proxy(&mut proxy);
    assert!(proxy.is_empty());
    assert!(!proxy.is_closed());
    assert_eq!(lp.pending_events(), 3);
    lp.next(at(0));
    assert_eq!(lp.next(at(0)), deliver(Event::UserEvent(1)));
    assert_eq!(lp.next(at(0)), deliver(Event::UserEvent(2)));
    assert_eq!(lp.next(at(0)), deliver(Event::UserEvent(3)));
    assert_eq!(proxy.send_event(4), Ok(()));
}

#[test]
fn absorb_proxy_closes_the_proxy_of_a_closed_loop() {
    let mut lp: EventLoop<u32> = EventLoop::new();
    let mut proxy: ProxyQueue<u32> = ProxyQueue::new();
    proxy.send_event(2).unwrap();
    lp.set_control_flow(ControlFlow::ExitWithCode(0));
    lp.absorb_proxy(&mut proxy);
    assert!(proxy.is_closed());
    assert!(proxy.is_empty());
    assert_eq!(lp.pending_events(), 0);
    assert_eq!(proxy.send_event(5), Err(SendError::LoopClosed));
    assert_eq!(lp.next(at(0)), deliver(Event::LoopDestroyed));
}

/// What the callback of a small application does: sleep between events once resumed, poll
/// once the window was asked to close, and exit 300 ms later.
struct Lingering {
    closed_at: Option<Instant>,
    window: Option<WindowId>,
}

impl Lingering {
    fn callback(&mut self, event: &Event<u32>, now: Instant, lp: &mut EventLoop<u32>) {
        let mut handle = lp.control_flow();
        if let Some(closed_at) = self.closed_at {
            if handle == ControlFlow::Poll && now.nanos - closed_at.nanos > 300_000_000 {
                handle.set_exit();
            }
        }
        match event {
            Event::Resumed => handle.set_wait(),
            Event::WindowEvent { event: WindowEvent::CloseRequested, .. } => {
                handle.set_poll();
                self.closed_at = Some(now);
                self.window = None;
            }
            Event::MainEventsCleared => {
                if let Some(window) = self.window {
                    lp.request_redraw(window);
                }
            }
            _ => {}
        }
        lp.set_control_flow(handle);
    }
}

#[test]
fn window_lingers_after_close_and_then_the_loop_exits() {
    let mut lp: EventLoop<u32> = EventLoop::new();
    let mut app = Lingering { closed_at: None, window: Some(WindowId(1)) };
    let mut seen: Vec<Event<u32>> = Vec::new();
    let mut blocked_with: Vec<Option<Instant>> = Vec::new();
    // One tick of the clock is a millisecond.
    let mut tick: u64 = 0;
    lp.queue_event(Event::Resumed);
    let code = loop {
        let now = at(tick * 1_000_000);
        match lp.next(now) {
            Action::Deliver(event) => {
                app.callback(&event, now, &mut lp);
                seen.push(event);
            }
            Action::Block(deadline) => {
                blocked_with.push(deadline);
                match deadline {
                    // The window is asked to close while the loop sleeps.
                    None => {
                        tick += 50;
                        lp.handle_native(NativeEvent::WindowCloseRequested { window: 1 });
                    }
                    Some(_) => tick += 100,
                }
            }
            Action::Exit(code) => break code,
        }
    };
    assert_eq!(code, 0);
    assert_eq!(
        seen,
        vec![
            // The first cycle: the application goes to sleep.
            Event::NewEvents(StartCause::Init),
            Event::Resumed,
            Event::MainEventsCleared,
            Event::RedrawRequested(WindowId(1)),
            Event::RedrawEventsCleared,
            // The window is closed: the application polls.
            Event::NewEvents(StartCause::WaitCancelled { start: at(0), requested_resume: None }),
            Event::WindowEvent { window_id: WindowId(1), event: WindowEvent::CloseRequested },
            Event::MainEventsCleared,
            Event::RedrawEventsCleared,
            // 100, 200 and 300 ms after the close nothing happens.
            Event::NewEvents(StartCause::Poll),
            Event::MainEventsCleared,
            Event::RedrawEventsCleared,
            Event::NewEvents(StartCause::Poll),
            Event::MainEventsCleared,
            Event::RedrawEventsCleared,
            Event::NewEvents(StartCause::Poll),
            Event::MainEventsCleared,
            Event::RedrawEventsCleared,
            // 400 ms after the close the application asks to exit.
            Event::NewEvents(StartCause::Poll),
            Event::LoopDestroyed,
        ]
    );
    assert_eq!(
        blocked_with,
        vec![
            None,
            Some(at(50_000_000)),
            Some(at(150_000_000)),
            Some(at(250_000_000)),
            Some(at(350_000_000)),
        ]
    );
}
