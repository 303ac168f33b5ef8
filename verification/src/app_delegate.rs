//! The application delegate: the hooks that the native application calls at the points of
//! its life cycle, and what each of them decides.

use vstd::prelude::*;
use crate::event::{Event, MacOS, PlatformSpecific};
use crate::event_loop::EventLoop;
use crate::translate::NativeEvent;

verus! {

/// Apple event class of internet events.
#[allow(non_upper_case_globals)]
pub const kInternetEventClass: u32 = 0x4755524c;

/// Apple event id of "get URL".
#[allow(non_upper_case_globals)]
pub const kAEGetURL: u32 = 0x4755524c;

/// Keyword of an Apple event's direct object.
#[allow(non_upper_case_globals)]
pub const keyDirectObject: u32 = 0x2d2d2d2d;

/// Whether an Apple event of this class and id asks the application to open a URL.
pub open spec fn is_get_url(class: u32, id: u32) -> bool {
    class == kInternetEventClass && id == kAEGetURL
}

/// The URL that an Apple event carries: the text of its direct object where the event is a
/// "get URL" event, and nothing otherwise.
pub open spec fn url_of(class: u32, id: u32, text: Option<String>) -> Option<String> {
    if is_get_url(class, id) {
        text
    } else {
        None
    }
}

/// Whether an Apple event of this class and id asks the application to open a URL. Only
/// then is its direct object worth reading.
pub fn carries_url(class: u32, id: u32) -> (r: bool)
    ensures
        r == is_get_url(class, id),
{
    class == kInternetEventClass && id == kAEGetURL
}

/// The URL that an Apple event carries, given the event's class and id and the text of its
/// direct object (`None` where it has no text).
pub fn parse_url(class: u32, id: u32, text: Option<String>) -> (url: Option<String>)
    ensures
        url == url_of(class, id, text),
{
    if class != kInternetEventClass || id != kAEGetURL {
        return None;
    }
    text
}

/// How the application takes part in the desktop.
#[derive(Clone, Copy, Debug, PartialEq, Eq, Structural)]
pub enum NSApplicationActivationPolicy {
    /// An ordinary application, with a Dock icon and a menu bar.
    Regular,
    /// No Dock icon and no menu bar, but it may come to the front.
    Accessory,
    /// It cannot come to the front.
    Prohibited,
}

/// One thing that the native application is told to do once it has launched.
#[derive(Clone, Copy, Debug, PartialEq, Eq, Structural)]
pub enum LaunchStep {
    SetActivationPolicy(NSApplicationActivationPolicy),
    /// Bring the application to the front; the flag says whether it does so even while
    /// another application is active.
    Activate { ignoring_other_apps: bool },
    /// Install the default menu bar.
    InitializeMenu,
}

/// The Apple events that the delegate asks to be told of.
#[derive(Clone, Copy, Debug, PartialEq, Eq, Structural)]
pub struct EventHandlerRegistration {
    pub event_class: u32,
    pub event_id: u32,
}

/// The application delegate, with the settings that it applies at launch.
#[derive(Clone, Copy, Debug, PartialEq, Eq, Structural)]
pub struct ApplicationDelegate {
    pub activation_policy: NSApplicationActivationPolicy,
    pub default_menu: bool,
    pub activate_ignoring_other_apps: bool,
}

impl ApplicationDelegate {
    /// What the native application is told to do at launch, in order: take the activation
    /// policy, come to the front, and, where the delegate was made with a default menu,
    /// install it. The menu comes last so that it is in place before the first cycle and
    /// the application can still replace it there.
    pub open spec fn launch_steps(self) -> Seq<LaunchStep> {
        let always = seq![
            LaunchStep::SetActivationPolicy(self.activation_policy),
            LaunchStep::Activate { ignoring_other_apps: self.activate_ignoring_other_apps },
        ];
        if self.default_menu {
            always.push(LaunchStep::InitializeMenu)
        } else {
            always
        }
    }

    /// A delegate with these settings.
    pub fn new(
        activation_policy: NSApplicationActivationPolicy,
        default_menu: bool,
        activate_ignoring_other_apps: bool,
    ) -> (delegate: ApplicationDelegate)
        ensures
            delegate == (ApplicationDelegate {
                activation_policy,
                default_menu,
                activate_ignoring_other_apps,
            }),
    {
        ApplicationDelegate { activation_policy, default_menu, activate_ignoring_other_apps }
    }

    /// The application is about to finish launching: the delegate asks to be told of "get
    /// URL" events.
    pub fn will_finish_launching(&self) -> (registration: EventHandlerRegistration)
        ensures
            registration == (EventHandlerRegistration {
                event_class: kInternetEventClass,
                event_id: kAEGetURL,
            }),
    {
        EventHandlerRegistration { event_class: kInternetEventClass, event_id: kAEGetURL }
    }

    /// The application has launched: returns what the native application is told to do, and
    /// queues `Resumed`, so that the first cycle opens with `NewEvents(Init)` and delivers
    /// `Resumed` next.
    pub fn did_finish_launching<T>(&self, event_loop: &mut EventLoop<T>) -> (steps: Vec<
        LaunchStep,
    >)
        ensures
            old(event_loop).wf() ==> final(event_loop).wf(),
            final(event_loop)@ == old(event_loop)@.enqueue(Event::Resumed),
            steps@ == self.launch_steps(),
    {
        let mut steps: Vec<LaunchStep> = Vec::new();
        steps.push(LaunchStep::SetActivationPolicy(self.activation_policy));
        steps.push(
            LaunchStep::Activate { ignoring_other_apps: self.activate_ignoring_other_apps },
        );
        if self.default_menu {
            steps.push(LaunchStep::InitializeMenu);
        }
        let _ = event_loop.queue_event(Event::Resumed);
        steps
    }

    /// An Apple event arrived, with this class and id and this text in its direct object:
    /// where it carries a URL, the loop queues it for the application. Returns whether it
    /// did.
    pub fn handle_url<T>(
        &self,
        event_loop: &mut EventLoop<T>,
        class: u32,
        id: u32,
        text: Option<String>,
    ) -> (queued: bool)
        ensures
            old(event_loop).wf() ==> final(event_loop).wf(),
            final(event_loop)@ == old(event_loop)@.native(
                NativeEvent::AppleEvent { class, id, text },
            ),
            queued == (url_of(class, id, text).is_some() && !old(event_loop)@.is_closed()),
            url_of(class, id, text) matches Some(url) ==> final(event_loop)@ == old(
                event_loop,
            )@.enqueue(Event::PlatformSpecific(PlatformSpecific::MacOS(MacOS::ReceivedUrl(url)))),
            url_of(class, id, text).is_none() ==> final(event_loop)@ == old(event_loop)@,
    {
        if let Some(string) = parse_url(class, id, text) {
            event_loop.queue_event(
                Event::PlatformSpecific(PlatformSpecific::MacOS(MacOS::ReceivedUrl(string))),
            )
        } else {
            false
        }
    }

    /// The application is about to end: the loop exits with code 0, unless it was exiting
    /// already.
    pub fn will_terminate<T>(&self, event_loop: &mut EventLoop<T>)
        ensures
            old(event_loop).wf() ==> final(event_loop).wf(),
            final(event_loop)@ == old(event_loop)@.exit(),
    {
        event_loop.exit();
    }
}

} // verus!
