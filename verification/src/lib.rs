//! The control-flow engine of a windowing event loop.
//!
//! A windowing event loop sits on a native run loop that it does not own: the platform
//! decides when the thread blocks and when it wakes. This crate holds what is decided in
//! between. It decides nothing about windows and calls nothing native: it is told what
//! happened and says what comes next.
//!
//! - [`control_flow`]: the scheduling mode that the application asks for (`Poll`, `Wait`,
//!   `WaitUntil`, `ExitWithCode`), the deadline that the native loop is armed with, and the
//!   cause of each wake.
//! - [`event`]: the events that the application sees.
//! - [`translate`]: from native notifications to events.
//! - [`redraw`]: redraw requests, merged per window.
//! - [`proxy`]: the queue of user events that other threads fill.
//! - [`event_loop`]: the driver, which hands out one action at a time: deliver this event,
//!   block until then, leave with this code.
//! - [`app_delegate`]: the hooks of the macOS application delegate.
//! - [`trace`] and [`cycle`]: what holds of every run of the driver, and what one cycle
//!   delivers.
//!
//! The owner of an [`event_loop::EventLoop`] runs it like this: ask for the next action
//! with `next`; for `Deliver`, call the application with the event and a copy of
//! `control_flow()`, then hand what the application left in it to `set_control_flow`; for
//! `Block`, block the native loop with the deadline, then feed what arrived with
//! `handle_native`, `absorb` and `request_redraw`; for `Exit`, leave.

pub mod app_delegate;
pub mod control_flow;
pub mod cycle;
pub mod event;
pub mod event_loop;
pub mod proxy;
pub mod redraw;
pub mod time;
pub mod trace;
pub mod translate;
