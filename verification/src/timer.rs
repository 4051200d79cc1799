//! The locker's expiration timer. The locker tells its timer task to start
//! counting down when the last client has left, and to stop as soon as a
//! client asks for a lock again; once the countdown runs out the locker shuts
//! down.
use vstd::prelude::*;

verus! {

/// A signal telling the expiration timer how to behave.
#[derive(Clone, Copy, Debug, PartialEq, Eq, Structural)]
pub enum TimerStateSignal {
    /// The timer should be stopped and reset.
    Stop,
    /// The timer should be started.
    Start,
}

/// What the timer task does after it has been woken by its signal channel.
#[derive(Clone, Copy, Debug, PartialEq, Eq, Structural)]
pub enum TimerAction {
    /// Start a countdown tied to the current cancellation token.
    Arm,
    /// Cancel every countdown started so far and take a fresh token.
    Disarm,
    /// Cancel every countdown started so far and end the task: the sending
    /// side of the channel is gone.
    Shutdown,
}

/// The action for the signal last seen on the channel; `sender_alive` is
/// false when waiting for a change failed because the sender was dropped.
pub open spec fn timer_action_spec(signal: TimerStateSignal, sender_alive: bool) -> TimerAction {
    if !sender_alive {
        TimerAction::Shutdown
    } else if signal == TimerStateSignal::Start {
        TimerAction::Arm
    } else {
        TimerAction::Disarm
    }
}

/// Decides what the timer task does when its channel reports `signal`.
/// Only a `Start` received while the locker is alive arms a countdown; a
/// `Stop` cancels all of them; a closed channel cancels them and ends the task.
pub fn timer_action(signal: TimerStateSignal, sender_alive: bool) -> (a: TimerAction)
    ensures
        a == timer_action_spec(signal, sender_alive),
        (a == TimerAction::Arm) == (signal == TimerStateSignal::Start && sender_alive),
        (a == TimerAction::Shutdown) == !sender_alive,
        (a == TimerAction::Disarm) == (signal == TimerStateSignal::Stop && sender_alive),
{
    match signal {
        TimerStateSignal::Start if sender_alive => TimerAction::Arm,
        _ => {
            if sender_alive {
                TimerAction::Disarm
            } else {
                TimerAction::Shutdown
            }
        },
    }
}

} // verus!
