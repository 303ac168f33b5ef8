//! The event translator: from what the native event source reports to the unified events.

use vstd::prelude::*;
use crate::app_delegate::{parse_url, url_of};
use crate::event::{DeviceEvent, DeviceId, Event, MacOS, PlatformSpecific, WindowEvent, WindowId};

verus! {

/// One notification of the native event source, as plain values.
#[derive(Clone, Debug, PartialEq, Eq)]
pub enum NativeEvent {
    WindowCloseRequested { window: u64 },
    WindowResized { window: u64, width: u32, height: u32 },
    WindowFocusChanged { window: u64, focused: bool },
    KeyInput { window: u64, key_code: u32, pressed: bool },
    /// The window's contents are out of date.
    NeedsDisplay { window: u64 },
    DeviceAdded { device: u64 },
    DeviceRemoved { device: u64 },
    DeviceMotion { device: u64, axis: u32, delta: i64 },
    DeviceButton { device: u64, button: u32, pressed: bool },
    ApplicationSuspended,
    ApplicationResumed,
    /// An Apple event, with the text of its direct object where it has one.
    AppleEvent { class: u32, id: u32, text: Option<String> },
    /// Bookkeeping of the native loop that means nothing to the application.
    Housekeeping,
}

/// What becomes of one native notification.
#[derive(Clone, Debug, PartialEq)]
pub enum Translation<T> {
    /// It is queued as this event.
    Queue(Event<T>),
    /// It asks for a redraw of this window, and merges with the requests that wait.
    Redraw(WindowId),
    /// It is dropped.
    Suppressed,
}

/// The translation of each native notification. Notifications about a window or a device
/// map one to one and keep the identifier of their origin.
pub open spec fn translation<T>(native: NativeEvent) -> Translation<T> {
    match native {
        NativeEvent::WindowCloseRequested { window } => Translation::Queue(
            Event::WindowEvent { window_id: WindowId(window), event: WindowEvent::CloseRequested },
        ),
        NativeEvent::WindowResized { window, width, height } => Translation::Queue(
            Event::WindowEvent {
                window_id: WindowId(window),
                event: WindowEvent::Resized { width, height },
            },
        ),
        NativeEvent::WindowFocusChanged { window, focused } => Translation::Queue(
            Event::WindowEvent { window_id: WindowId(window), event: WindowEvent::Focused(focused) },
        ),
        NativeEvent::KeyInput { window, key_code, pressed } => Translation::Queue(
            Event::WindowEvent {
                window_id: WindowId(window),
                event: WindowEvent::KeyboardInput { key_code, pressed },
            },
        ),
        NativeEvent::NeedsDisplay { window } => Translation::Redraw(WindowId(window)),
        NativeEvent::DeviceAdded { device } => Translation::Queue(
            Event::DeviceEvent { device_id: DeviceId(device), event: DeviceEvent::Added },
        ),
        NativeEvent::DeviceRemoved { device } => Translation::Queue(
            Event::DeviceEvent { device_id: DeviceId(device), event: DeviceEvent::Removed },
        ),
        NativeEvent::DeviceMotion { device, axis, delta } => Translation::Queue(
            Event::DeviceEvent {
                device_id: DeviceId(device),
                event: DeviceEvent::Motion { axis, delta },
            },
        ),
        NativeEvent::DeviceButton { device, button, pressed } => Translation::Queue(
            Event::DeviceEvent {
                device_id: DeviceId(device),
                event: DeviceEvent::Button { button, pressed },
            },
        ),
        NativeEvent::ApplicationSuspended => Translation::Queue(Event::Suspended),
        NativeEvent::ApplicationResumed => Translation::Queue(Event::Resumed),
        NativeEvent::AppleEvent { class, id, text } => match url_of(class, id, text) {
            Some(url) => Translation::Queue(
                Event::PlatformSpecific(PlatformSpecific::MacOS(MacOS::ReceivedUrl(url))),
            ),
            None => Translation::Suppressed,
        },
        NativeEvent::Housekeeping => Translation::Suppressed,
    }
}

/// The translator queues nothing but events that travel through the drain queue: it never
/// makes up a phase marker.
pub proof fn lemma_translation_is_queueable<T>(native: NativeEvent)
    ensures
        translation::<T>(native) matches Translation::Queue(e) ==> e.is_queueable(),
{
}

/// Translates one native notification.
pub fn translate<T>(native: NativeEvent) -> (t: Translation<T>)
    ensures
        t == translation::<T>(native),
{
    match native {
        NativeEvent::WindowCloseRequested { window } => Translation::Queue(
            Event::WindowEvent { window_id: WindowId(window), event: WindowEvent::CloseRequested },
        ),
        NativeEvent::WindowResized { window, width, height } => Translation::Queue(
            Event::WindowEvent {
                window_id: WindowId(window),
                event: WindowEvent::Resized { width, height },
            },
        ),
        NativeEvent::WindowFocusChanged { window, focused } => Translation::Queue(
            Event::WindowEvent { window_id: WindowId(window), event: WindowEvent::Focused(focused) },
        ),
        NativeEvent::KeyInput { window, key_code, pressed } => Translation::Queue(
            Event::WindowEvent {
                window_id: WindowId(window),
                event: WindowEvent::KeyboardInput { key_code, pressed },
            },
        ),
        NativeEvent::NeedsDisplay { window } => Translation::Redraw(WindowId(window)),
        NativeEvent::DeviceAdded { device } => Translation::Queue(
            Event::DeviceEvent { device_id: DeviceId(device), event: DeviceEvent::Added },
        ),
        NativeEvent::DeviceRemoved { device } => Translation::Queue(
            Event::DeviceEvent { device_id: DeviceId(device), event: DeviceEvent::Removed },
        ),
        NativeEvent::DeviceMotion { device, axis, delta } => Translation::Queue(
            Event::DeviceEvent {
                device_id: DeviceId(device),
                event: DeviceEvent::Motion { axis, delta },
            },
        ),
        NativeEvent::DeviceButton { device, button, pressed } => Translation::Queue(
            Event::DeviceEvent {
                device_id: DeviceId(device),
                event: DeviceEvent::Button { button, pressed },
            },
        ),
        NativeEvent::ApplicationSuspended => Translation::Queue(Event::Suspended),
        NativeEvent::ApplicationResumed => Translation::Queue(Event::Resumed),
        NativeEvent::AppleEvent { class, id, text } => match parse_url(class, id, text) {
            Some(url) => Translation::Queue(
                Event::PlatformSpecific(PlatformSpecific::MacOS(MacOS::ReceivedUrl(url))),
            ),
            None => Translation::Suppressed,
        },
        NativeEvent::Housekeeping => Translation::Suppressed,
    }
}

} // verus!
