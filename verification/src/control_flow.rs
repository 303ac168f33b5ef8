//! The control-flow state machine: the scheduling mode that the application asks for, and
//! the wait that the native loop is armed with.

use vstd::prelude::*;
use crate::event::StartCause;
use crate::time::Instant;

verus! {

/// How the application wants the loop to wait before its next cycle.
#[derive(Clone, Copy, Debug, PartialEq, Eq, Structural)]
pub enum ControlFlow {
    /// Start the next cycle at once.
    Poll,
    /// Block until an event arrives.
    Wait,
    /// Block until an event arrives or the deadline passes.
    WaitUntil(Instant),
    /// Stop the loop; the process exits with this code.
    ExitWithCode(i32),
}

impl ControlFlow {
    /// Whether this mode ends the loop.
    pub open spec fn is_exit(self) -> bool {
        self is ExitWithCode
    }

    /// The deadline that the native loop blocks with under this mode when the wait begins
    /// at `now`: `None` blocks until an event arrives. Polling is a wait that ends at once,
    /// and so is a deadline that has already passed. A loop that exits has nothing to wait
    /// for either.
    pub open spec fn deadline_at(self, now: Instant) -> Option<Instant> {
        match self {
            ControlFlow::Poll => Some(now),
            ControlFlow::Wait => None,
            ControlFlow::WaitUntil(t) => Some(t.later_of(now)),
            ControlFlow::ExitWithCode(_) => Some(now),
        }
    }

    /// What a callback's handle holds after the callback wrote `new` to it: a write
    /// replaces what was there.
    pub open spec fn write(self, new: ControlFlow) -> ControlFlow {
        new
    }

    /// What a callback's handle holds after the callback wrote each of `writes` to it, the
    /// first one first.
    pub open spec fn written(self, writes: Seq<ControlFlow>) -> ControlFlow
        decreases writes.len(),
    {
        if writes.len() == 0 {
            self
        } else {
            self.written(writes.drop_last()).write(writes.last())
        }
    }

    /// What the machine holds after a callback returned and left `new` in its handle:
    /// `new`, unless the loop was exiting already.
    pub open spec fn overwritten_by(self, new: ControlFlow) -> ControlFlow {
        if self.is_exit() {
            self
        } else {
            new
        }
    }

    /// The exit code under this mode: that of `ExitWithCode`, and 0 where the loop ends
    /// without one.
    pub open spec fn code(self) -> i32 {
        match self {
            ControlFlow::ExitWithCode(c) => c,
            _ => 0,
        }
    }

    /// Reads the handle.
    pub fn get(&self) -> (cf: ControlFlow)
        ensures
            cf == *self,
    {
        *self
    }

    /// Writes `new` to the handle, over what was there.
    pub fn set(&mut self, new: ControlFlow)
        ensures
            *final(self) == old(self).write(new),
    {
        *self = new;
    }

    /// Asks for the next cycle to start at once.
    pub fn set_poll(&mut self)
        ensures
            *final(self) == ControlFlow::Poll,
    {
        *self = ControlFlow::Poll;
    }

    /// Asks for the loop to block until an event arrives.
    pub fn set_wait(&mut self)
        ensures
            *final(self) == ControlFlow::Wait,
    {
        *self = ControlFlow::Wait;
    }

    /// Asks for the loop to block until an event arrives or `deadline` passes.
    pub fn set_wait_until(&mut self, deadline: Instant)
        ensures
            *final(self) == ControlFlow::WaitUntil(deadline),
    {
        *self = ControlFlow::WaitUntil(deadline);
    }

    /// Asks for the loop to exit with `code`.
    pub fn set_exit_with_code(&mut self, code: i32)
        ensures
            *final(self) == ControlFlow::ExitWithCode(code),
    {
        *self = ControlFlow::ExitWithCode(code);
    }

    /// Asks for the loop to exit with code 0.
    pub fn set_exit(&mut self)
        ensures
            *final(self) == ControlFlow::ExitWithCode(0),
    {
        *self = ControlFlow::ExitWithCode(0);
    }

    /// Whether this mode ends the loop.
    pub fn exits(self) -> (r: bool)
        ensures
            r == self.is_exit(),
    {
        match self {
            ControlFlow::ExitWithCode(_) => true,
            _ => false,
        }
    }

    /// The deadline to block with when the wait begins at `now`.
    pub fn wake_deadline(self, now: Instant) -> (d: Option<Instant>)
        ensures
            d == self.deadline_at(now),
    {
        match self {
            ControlFlow::Poll => Some(now),
            ControlFlow::Wait => None,
            ControlFlow::WaitUntil(t) => Some(t.max(now)),
            ControlFlow::ExitWithCode(_) => Some(now),
        }
    }

    /// The exit code under this mode.
    pub fn exit_code(self) -> (c: i32)
        ensures
            c == self.code(),
    {
        match self {
            ControlFlow::ExitWithCode(c) => c,
            _ => 0,
        }
    }
}

impl Default for ControlFlow {
    fn default() -> (r: ControlFlow)
        ensures
            r == ControlFlow::Poll,
    {
        ControlFlow::Poll
    }
}

/// Whether the native loop is blocked, and with what.
#[derive(Clone, Copy, Debug, PartialEq, Eq, Structural)]
pub enum WaitState {
    /// No cycle has run yet.
    NotStarted,
    /// A cycle is running; nothing is armed.
    Running,
    /// The native loop was armed at `since` under `mode`.
    Blocked { mode: ControlFlow, since: Instant },
}

/// The mathematical state of the control-flow machine.
pub struct ControlModel {
    /// What the application last asked for.
    pub current: ControlFlow,
    pub wait: WaitState,
}

impl ControlModel {
    /// The machine before the first cycle.
    pub open spec fn initial() -> ControlModel {
        ControlModel { current: ControlFlow::Poll, wait: WaitState::NotStarted }
    }

    /// Once the loop is exiting it stays so.
    pub open spec fn is_terminal(self) -> bool {
        self.current.is_exit()
    }

    /// The machine after a callback returned and left `new` in its handle.
    pub open spec fn set(self, new: ControlFlow) -> ControlModel {
        ControlModel { current: self.current.overwritten_by(new), ..self }
    }

    /// The machine after one callback after the other returned, and they left `writes` in
    /// their handles, the first one first.
    pub open spec fn set_all(self, writes: Seq<ControlFlow>) -> ControlModel
        decreases writes.len(),
    {
        if writes.len() == 0 {
            self
        } else {
            self.set_all(writes.drop_last()).set(writes.last())
        }
    }

    /// The wake deadline that is armed, if any.
    pub open spec fn timer(self) -> Option<Instant> {
        match self.wait {
            WaitState::Blocked { mode, since } => mode.deadline_at(since),
            _ => None,
        }
    }

    /// Why a wake at `now` happened. A wake after the deadline is reported once, as the
    /// deadline reached, however late it comes.
    pub open spec fn start_cause(self, now: Instant) -> StartCause {
        match self.wait {
            WaitState::NotStarted => StartCause::Init,
            WaitState::Running => StartCause::Poll,
            WaitState::Blocked { mode, since } => match mode {
                ControlFlow::Poll => StartCause::Poll,
                ControlFlow::Wait => StartCause::WaitCancelled {
                    start: since,
                    requested_resume: None,
                },
                ControlFlow::WaitUntil(t) => if now.reached(t) {
                    StartCause::ResumeTimeReached { start: since, requested_resume: t }
                } else {
                    StartCause::WaitCancelled { start: since, requested_resume: Some(t) }
                },
                ControlFlow::ExitWithCode(_) => StartCause::Poll,
            },
        }
    }

    /// The machine after a wake: nothing is armed while the cycle runs.
    pub open spec fn woken(self) -> ControlModel {
        ControlModel { wait: WaitState::Running, ..self }
    }

    /// The machine after arming at `now`. An exiting machine arms nothing.
    pub open spec fn armed(self, now: Instant) -> ControlModel {
        if self.is_terminal() {
            self
        } else {
            ControlModel { wait: WaitState::Blocked { mode: self.current, since: now }, ..self }
        }
    }
}

/// Of the writes of one callback to its handle only the last one counts.
pub proof fn lemma_last_write_stays(start: ControlFlow, writes: Seq<ControlFlow>)
    requires
        writes.len() > 0,
    ensures
        start.written(writes) == writes.last(),
{
}

/// As long as no callback asks the loop to exit, the machine holds what the last callback
/// left.
pub proof fn lemma_last_write_wins(c: ControlModel, writes: Seq<ControlFlow>)
    requires
        !c.is_terminal(),
        writes.len() > 0,
        forall|i: int| 0 <= i < writes.len() - 1 ==> !(#[trigger] writes[i]).is_exit(),
    ensures
        c.set_all(writes) == (ControlModel { current: writes.last(), ..c }),
    decreases writes.len(),
{
    let before = writes.drop_last();
    if before.len() == 0 {
        assert(c.set_all(before) == c);
    } else {
        assert forall|i: int| 0 <= i < before.len() - 1 implies !(#[trigger] before[i]).is_exit() by {
            assert(before[i] == writes[i]);
        }
        lemma_last_write_wins(c, before);
    }
}

/// The first callback that leaves a request to exit decides: the machine holds that
/// request, whatever later callbacks leave.
pub proof fn lemma_first_exit_wins(c: ControlModel, writes: Seq<ControlFlow>, k: int)
    requires
        !c.is_terminal(),
        0 <= k < writes.len(),
        writes[k].is_exit(),
        forall|i: int| 0 <= i < k ==> !(#[trigger] writes[i]).is_exit(),
    ensures
        c.set_all(writes) == (ControlModel { current: writes[k], ..c }),
    decreases writes.len(),
{
    let before = writes.drop_last();
    if k == writes.len() - 1 {
        lemma_last_write_wins(c, writes);
    } else {
        assert forall|i: int| 0 <= i < k implies !(#[trigger] before[i]).is_exit() by {
            assert(before[i] == writes[i]);
        }
        lemma_first_exit_wins(c, before, k);
    }
}

/// Once the loop is exiting, nothing that a callback leaves changes the machine.
pub proof fn lemma_exit_is_final(c: ControlModel, writes: Seq<ControlFlow>)
    requires
        c.is_terminal(),
    ensures
        c.set_all(writes) == c,
    decreases writes.len(),
{
    if writes.len() > 0 {
        lemma_exit_is_final(c, writes.drop_last());
    }
}

/// Of a machine that is not blocked without a deadline: a wake is reported as a cancelled
/// wait exactly when a deadline was armed and the wake came before it.
pub proof fn lemma_wait_cancelled(c: ControlModel, now: Instant)
    requires
        !(c.wait matches WaitState::Blocked { mode: ControlFlow::Wait, .. }),
    ensures
        c.start_cause(now) is WaitCancelled <==> (c.wait matches WaitState::Blocked {
            mode: ControlFlow::WaitUntil(t),
            ..
        } && !now.reached(t)),
{
}

/// Of every machine: a wake is reported as a wait cancelled before the deadline `t` exactly
/// when `t` was armed and the wake came before it, and as a wait cancelled without a
/// deadline exactly when the machine was blocked without one.
pub proof fn lemma_wait_cancelled_by_deadline(c: ControlModel, now: Instant, t: Instant)
    ensures
        (c.start_cause(now) matches StartCause::WaitCancelled { requested_resume: Some(r), .. }
            && r == t) <==> (c.wait matches WaitState::Blocked {
            mode: ControlFlow::WaitUntil(d),
            ..
        } && d == t && !now.reached(t)),
        (c.start_cause(now) matches StartCause::WaitCancelled { requested_resume: None, .. })
            <==> (c.wait matches WaitState::Blocked { mode: ControlFlow::Wait, .. }),
        c.start_cause(now) matches StartCause::WaitCancelled { start, .. } ==> (
        c.wait matches WaitState::Blocked { since, .. } && since == start),
{
}

/// The control-flow machine. It holds the scheduling mode in effect: the driver hands a
/// copy of it to every callback as a handle and gives back what the callback left; it arms
/// the machine before the native loop blocks and asks it why the loop woke.
#[derive(Clone, Copy, Debug, PartialEq, Eq)]
pub struct ControlFlowState {
    current: ControlFlow,
    wait: WaitState,
}

impl View for ControlFlowState {
    type V = ControlModel;

    closed spec fn view(&self) -> ControlModel {
        ControlModel { current: self.current, wait: self.wait }
    }
}

impl ControlFlowState {
    /// A machine that polls and has not run a cycle yet.
    pub fn new() -> (s: ControlFlowState)
        ensures
            s@ == ControlModel::initial(),
    {
        ControlFlowState { current: ControlFlow::Poll, wait: WaitState::NotStarted }
    }

    /// The scheduling mode in effect.
    pub fn current(&self) -> (cf: ControlFlow)
        ensures
            cf == self@.current,
    {
        self.current
    }

    /// The scheduling mode in effect.
    pub fn get(&self) -> (cf: ControlFlow)
        ensures
            cf == self@.current,
    {
        self.current
    }

    /// Takes over the scheduling mode that a callback left in its handle. Once the loop is
    /// exiting, this changes nothing.
    pub fn set(&mut self, new: ControlFlow)
        ensures
            final(self)@ == old(self)@.set(new),
    {
        if !self.current.exits() {
            self.current = new;
        }
    }

    /// Whether the loop is exiting.
    pub fn is_terminal(&self) -> (r: bool)
        ensures
            r == self@.is_terminal(),
    {
        self.current.exits()
    }

    /// The exit code that the process ends with: 0 unless the mode is `ExitWithCode`.
    pub fn exit_code(&self) -> (c: i32)
        ensures
            c == self@.current.code(),
    {
        self.current.exit_code()
    }

    /// The wake deadline that is armed, if any.
    pub fn timer(&self) -> (d: Option<Instant>)
        ensures
            d == self@.timer(),
    {
        match self.wait {
            WaitState::Blocked { mode, since } => mode.wake_deadline(since),
            _ => None,
        }
    }

    /// Why a wake at `now` happened.
    pub fn start_cause(&self, now: Instant) -> (cause: StartCause)
        ensures
            cause == self@.start_cause(now),
    {
        match self.wait {
            WaitState::NotStarted => StartCause::Init,
            WaitState::Running => StartCause::Poll,
            WaitState::Blocked { mode, since } => match mode {
                ControlFlow::Poll => StartCause::Poll,
                ControlFlow::Wait => StartCause::WaitCancelled {
                    start: since,
                    requested_resume: None,
                },
                ControlFlow::WaitUntil(t) => if now.has_reached(t) {
                    StartCause::ResumeTimeReached { start: since, requested_resume: t }
                } else {
                    StartCause::WaitCancelled { start: since, requested_resume: Some(t) }
                },
                ControlFlow::ExitWithCode(_) => StartCause::Poll,
            },
        }
    }

    /// Records that the native loop woke at `now` and says why. Nothing stays armed.
    pub fn wake(&mut self, now: Instant) -> (cause: StartCause)
        ensures
            cause == old(self)@.start_cause(now),
            final(self)@ == old(self)@.woken(),
    {
        let cause = self.start_cause(now);
        self.wait = WaitState::Running;
        cause
    }

    /// Arms the native loop at `now` under the mode in effect, and returns the deadline to
    /// block with. An exiting machine arms nothing, and its deadline is `now`.
    pub fn arm(&mut self, now: Instant) -> (deadline: Option<Instant>)
        ensures
            final(self)@ == old(self)@.armed(now),
            deadline == old(self)@.current.deadline_at(now),
    {
        if !self.current.exits() {
            self.wait = WaitState::Blocked { mode: self.current, since: now };
        }
        self.current.wake_deadline(now)
    }
}

impl Default for ControlFlowState {
    fn default() -> (s: ControlFlowState)
        ensures
            s@ == ControlModel::initial(),
    {
        ControlFlowState::new()
    }
}

} // verus!
