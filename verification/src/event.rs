//! The unified event model that the loop publishes to the application.

use vstd::prelude::*;
use crate::time::Instant;

verus! {

/// Identifies one window among those that share the loop.
#[derive(Clone, Copy, Debug, PartialEq, Eq, Structural)]
pub struct WindowId(pub u64);

/// Identifies one input device.
#[derive(Clone, Copy, Debug, PartialEq, Eq, Structural)]
pub struct DeviceId(pub u64);

/// Why the loop woke; carried by the first event of every cycle.
#[allow(inconsistent_fields)]
#[derive(Clone, Copy, Debug, PartialEq, Eq, Structural)]
pub enum StartCause {
    /// The deadline of a `WaitUntil` passed. `start` is when the wait began.
    ResumeTimeReached { start: Instant, requested_resume: Instant },
    /// The wait ended before its deadline, or had none (`requested_resume` is `None`).
    WaitCancelled { start: Instant, requested_resume: Option<Instant> },
    /// The loop was not waiting: it polls.
    Poll,
    /// The first cycle.
    Init,
}

/// What happened to a window.
#[derive(Clone, Copy, Debug, PartialEq, Eq, Structural)]
pub enum WindowEvent {
    CloseRequested,
    Resized { width: u32, height: u32 },
    Focused(bool),
    KeyboardInput { key_code: u32, pressed: bool },
}

/// What an input device reported, independent of any window.
#[derive(Clone, Copy, Debug, PartialEq, Eq, Structural)]
pub enum DeviceEvent {
    Added,
    Removed,
    Motion { axis: u32, delta: i64 },
    Button { button: u32, pressed: bool },
}

/// Events that only macOS produces.
#[derive(Clone, Debug, PartialEq, Eq)]
pub enum MacOS {
    /// The application was asked to open this URL.
    ReceivedUrl(String),
}

/// Events that only one platform produces.
#[derive(Clone, Debug, PartialEq, Eq)]
pub enum PlatformSpecific {
    MacOS(MacOS),
}

/// One event, as handed to the application callback. `T` is the payload of user events.
#[allow(inconsistent_fields)]
#[derive(Clone, Debug, PartialEq)]
pub enum Event<T> {
    /// Opens a cycle.
    NewEvents(StartCause),
    WindowEvent { window_id: WindowId, event: WindowEvent },
    DeviceEvent { device_id: DeviceId, event: DeviceEvent },
    /// Sent through a proxy.
    UserEvent(T),
    Suspended,
    Resumed,
    /// Every event queued for this cycle has been delivered.
    MainEventsCleared,
    RedrawRequested(WindowId),
    /// Every redraw of this cycle has been delivered.
    RedrawEventsCleared,
    /// The last event of all.
    LoopDestroyed,
    PlatformSpecific(PlatformSpecific),
}

impl<T> Event<T> {
    /// Whether this event travels through the drain queue. The others mark the phases of
    /// a cycle, and only the driver produces them.
    pub open spec fn is_queueable(self) -> bool {
        match self {
            Event::WindowEvent { .. } => true,
            Event::DeviceEvent { .. } => true,
            Event::UserEvent(_) => true,
            Event::Suspended => true,
            Event::Resumed => true,
            Event::PlatformSpecific(_) => true,
            _ => false,
        }
    }

    /// Whether this event travels through the drain queue.
    pub fn queueable(&self) -> (r: bool)
        ensures
            r == self.is_queueable(),
    {
        match self {
            Event::WindowEvent { .. } => true,
            Event::DeviceEvent { .. } => true,
            Event::UserEvent(_) => true,
            Event::Suspended => true,
            Event::Resumed => true,
            Event::PlatformSpecific(_) => true,
            _ => false,
        }
    }
}

} // verus!
