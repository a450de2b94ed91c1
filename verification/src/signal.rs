//! The decisions of a wake-up signal shared by a waiting thread and the
//! threads that notify it. The lock and the condition variable that carry it
//! between threads stand outside; here are the state and its transitions.
use vstd::prelude::*;

verus! {

/// The state of a signal.
#[derive(Debug, Clone, Copy, PartialEq, Eq, Structural)]
pub enum State {
    /// Nobody waits and no notification is pending.
    Empty,
    /// A thread waits to be notified.
    Waiting,
    /// A notification arrived that nobody has waited for yet.
    Notified,
}

/// What a thread that calls `wait` does next.
#[derive(Debug, Clone, Copy, PartialEq, Eq, Structural)]
pub enum WaitAction {
    /// Go on: a pending notification was consumed.
    Proceed,
    /// Block until the state is no longer `Waiting`.
    Block,
}

/// What a thread that calls `notify` does next.
#[derive(Debug, Clone, Copy, PartialEq, Eq, Structural)]
pub enum NotifyAction {
    /// Nothing more.
    Nothing,
    /// Wake the one waiting thread.
    WakeOne,
}

/// `wait` from state `s`: a pending notification is consumed; otherwise the
/// caller becomes the waiter and blocks.
pub open spec fn wait_step(s: State) -> (State, WaitAction) {
    match s {
        State::Notified => (State::Empty, WaitAction::Proceed),
        _ => (State::Waiting, WaitAction::Block),
    }
}

/// `notify` from state `s`: a waiter is released, otherwise the notification
/// is kept for the next `wait`.
pub open spec fn notify_step(s: State) -> (State, NotifyAction) {
    match s {
        State::Waiting => (State::Empty, NotifyAction::WakeOne),
        _ => (State::Notified, NotifyAction::Nothing),
    }
}

/// A wake-up signal.
pub struct Signal {
    state: State,
}

impl Signal {
    /// The current state.
    pub closed spec fn state(&self) -> State {
        self.state
    }

    /// A signal with nobody waiting and nothing pending.
    pub fn new() -> (r: Signal)
        ensures
            r.state() == State::Empty,
    {
        Signal { state: State::Empty }
    }

    /// The current state.
    pub fn current(&self) -> (r: State)
        ensures
            r == self.state(),
    {
        self.state
    }

    /// Whether a thread waits on the signal.
    pub fn is_waiting(&self) -> (r: bool)
        ensures
            r == (self.state() == State::Waiting),
    {
        match self.state {
            State::Waiting => true,
            _ => false,
        }
    }

    /// A thread starts to wait; a second waiter is not allowed.
    pub fn wait(&mut self) -> (r: WaitAction)
        requires
            old(self).state() != State::Waiting,
        ensures
            (final(self).state(), r) == wait_step(old(self).state()),
    {
        match self.state {
            State::Notified => {
                self.state = State::Empty;
                WaitAction::Proceed
            },
            _ => {
                self.state = State::Waiting;
                WaitAction::Block
            },
        }
    }

    /// A thread notifies the signal.
    pub fn notify(&mut self) -> (r: NotifyAction)
        ensures
            (final(self).state(), r) == notify_step(old(self).state()),
    {
        match self.state {
            State::Waiting => {
                self.state = State::Empty;
                NotifyAction::WakeOne
            },
            _ => {
                self.state = State::Notified;
                NotifyAction::Nothing
            },
        }
    }
}

/// A notification sent while nobody waits is not lost: the next `wait`
/// proceeds at once and consumes it.
pub proof fn law_notification_kept(s: State)
    requires
        s != State::Waiting,
    ensures
        notify_step(s).1 == NotifyAction::Nothing,
        wait_step(notify_step(s).0) == (State::Empty, WaitAction::Proceed),
{
}

/// A thread that blocks in `wait` is woken by the next `notify`, which
/// leaves the state no longer `Waiting`, so the waiter's loop ends.
pub proof fn law_waiter_released(s: State)
    requires
        s != State::Waiting,
        wait_step(s).1 == WaitAction::Block,
    ensures
        wait_step(s).0 == State::Waiting,
        notify_step(wait_step(s).0) == (State::Empty, NotifyAction::WakeOne),
{
}

/// With nobody waiting, notifying twice is the same as notifying once.
pub proof fn law_notify_idempotent(s: State)
    requires
        s != State::Waiting,
    ensures
        notify_step(notify_step(s).0) == notify_step(s),
{
}

/// `wait` never leaves a notification pending, and never answers `Proceed`
/// unless one was pending.
pub proof fn law_wait_consumes(s: State)
    ensures
        wait_step(s).0 != State::Notified,
        wait_step(s).1 == WaitAction::Proceed <==> s == State::Notified,
{
}

} // verus!
