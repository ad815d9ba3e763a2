//! The decisions of the poll loop.
//!
//! The loop itself sleeps, reads the sensor and writes to the sink, none of
//! which can be done here. What it decides in between is a state machine:
//! `PollLoop::advance` takes what has just happened and says what to do
//! next. The caller does that and comes back with the outcome.
//!
//! One round goes: `Event::Signal` with what the signal channel held; on
//! `Action::Read`, `Event::Reading` with what the sensor said; on
//! `Action::Send`, `Event::Sent` with whether the sink took it; on
//! `Action::Sleep` the round is over.

use vstd::prelude::*;
use crate::debounce::DebounceState;
use crate::rotation::Rotation;

verus! {

/// The default interval between two polls, in milliseconds.
pub const DEFAULT_PERIOD: u32 = 150;

/// The default time over which readings are averaged, in milliseconds.
pub const DEFAULT_HYSTERESIS: u32 = 1000;

/// The default time for which a rotation has to be held before it is
/// reported, in milliseconds.
pub const DEFAULT_DELAY: u32 = 350;

/// Whether the loop ends by default when a rotation cannot be sent.
pub const DEFAULT_QUIT_ON_ROTATION_SEND_ERR: bool = false;

/// Milliseconds in a second.
pub const PERIOD_SEC_DIV: u32 = 1000;

/// Nanoseconds in a millisecond.
pub const PERIOD_NS_MULT: u32 = 1000000;

/// Exit status when the thread that waits for signals is gone.
pub const EXIT_SIGNAL_THREAD_DIED: i32 = 17;

/// Exit status when a rotation could not be sent and the loop is set to end
/// on that.
pub const EXIT_SEND_FAILED: i32 = 4;

/// Exit status when no frontend could be set up.
pub const ERR_NO_FRONTEND: i32 = -1314;

/// Exit status when no backend could be set up.
pub const ERR_NO_ORIENTATOR: i32 = -1313;

/// What a look at the signal channel found.
#[derive(Debug, PartialEq, Eq, Structural, Clone, Copy)]
pub enum SignalCheck {
    /// No signal has arrived.
    Quiet,
    /// A signal to end has arrived.
    Received,
    /// The thread that waits for signals is gone.
    Disconnected,
}

/// What has just happened.
#[derive(Debug, PartialEq, Eq, Structural, Clone, Copy)]
pub enum Event {
    /// A round begins; the signal channel was looked at.
    Signal(SignalCheck),
    /// The sensor was read at the time given.
    Reading(Option<Rotation>, u64),
    /// The rotation was handed to the sink; `true` if the sink took it.
    Sent(bool),
}

/// What to do next.
#[derive(Debug, PartialEq, Eq, Structural, Clone, Copy)]
pub enum Action {
    /// Read the sensor.
    Read,
    /// Hand this rotation to the sink.
    Send(Rotation),
    /// Sleep for one period, then begin the next round.
    Sleep,
    /// Leave the loop with this exit status.
    Stop(i32),
}

/// The poll loop between two steps.
#[derive(Debug, PartialEq, Eq, Structural, Clone, Copy)]
pub struct PollLoop {
    /// What the debouncer remembers.
    pub debounce: DebounceState,
    /// The commit delay, in the unit of the times in `Event::Reading`.
    pub delay: u64,
    /// Whether the loop ends when a rotation cannot be sent.
    pub quit_on_send_error: bool,
}

/// The loop after a step, and what the step asks for.
pub struct Advance {
    pub state: PollLoop,
    pub action: Action,
}

impl PollLoop {
    /// One step of the loop.
    ///
    /// - A signal ends the loop with status 0, the loss of the signal thread
    ///   with status 17; on a quiet channel the sensor is read.
    /// - A reading goes through the debouncer; what it commits is sent, and
    ///   stays committed whatever becomes of the sending.
    /// - A failed sending ends the loop with status 4 where the loop is set
    ///   to end on that; otherwise the loop goes on.
    pub open spec fn next(self, event: Event) -> Advance {
        match event {
            Event::Signal(SignalCheck::Quiet) => Advance { state: self, action: Action::Read },
            Event::Signal(SignalCheck::Received) => Advance {
                state: self,
                action: Action::Stop(0),
            },
            Event::Signal(SignalCheck::Disconnected) => Advance {
                state: self,
                action: Action::Stop(EXIT_SIGNAL_THREAD_DIED),
            },
            Event::Reading(reading, now) => {
                let outcome = self.debounce.step(reading, now, self.delay);
                Advance {
                    state: PollLoop {
                        debounce: outcome.state,
                        delay: self.delay,
                        quit_on_send_error: self.quit_on_send_error,
                    },
                    action: match outcome.emitted {
                        Some(rotation) => Action::Send(rotation),
                        None => Action::Sleep,
                    },
                }
            },
            Event::Sent(delivered) => Advance {
                state: self,
                action: if !delivered && self.quit_on_send_error {
                    Action::Stop(EXIT_SEND_FAILED)
                } else {
                    Action::Sleep
                },
            },
        }
    }

    /// Returns a loop that has sensed and reported nothing yet.
    pub fn new(now: u64, delay: u64, quit_on_send_error: bool) -> (state: PollLoop)
        ensures
            state == (PollLoop {
                debounce: DebounceState::idle(now),
                delay,
                quit_on_send_error,
            }),
    {
        PollLoop { debounce: DebounceState::new(now), delay, quit_on_send_error }
    }

    /// Takes in what has just happened and returns what to do next.
    pub fn advance(&mut self, event: Event) -> (action: Action)
        ensures
            *final(self) == old(self).next(event).state,
            action == old(self).next(event).action,
    {
        match event {
            Event::Signal(SignalCheck::Quiet) => Action::Read,
            Event::Signal(SignalCheck::Received) => Action::Stop(0),
            Event::Signal(SignalCheck::Disconnected) => Action::Stop(EXIT_SIGNAL_THREAD_DIED),
            Event::Reading(reading, now) => {
                let delay: u64 = self.delay;
                match self.debounce.tick(reading, now, delay) {
                    Some(rotation) => Action::Send(rotation),
                    None => Action::Sleep,
                }
            },
            Event::Sent(delivered) => {
                if !delivered && self.quit_on_send_error {
                    Action::Stop(EXIT_SEND_FAILED)
                } else {
                    Action::Sleep
                }
            },
        }
    }
}

/// Tells whether the loop is to end when a rotation cannot be sent.
pub fn quit_on_rotation_send_error() -> (quit: bool)
    ensures
        quit == DEFAULT_QUIT_ON_ROTATION_SEND_ERR,
{
    DEFAULT_QUIT_ON_ROTATION_SEND_ERR
}

/// Splits a time in milliseconds into whole seconds and the nanoseconds
/// beyond them.
pub fn split_millis(millis: u32) -> (parts: (u64, u32))
    ensures
        parts.0 == millis / 1000,
        parts.1 == (millis % 1000) * 1000000,
        parts.1 < 1000000000,
        parts.0 * 1000000000 + parts.1 == millis * 1000000,
{
    ((millis / PERIOD_SEC_DIV) as u64, (millis % PERIOD_SEC_DIV) * PERIOD_NS_MULT)
}

/// Returns a time in milliseconds as nanoseconds.
pub fn millis_to_nanos(millis: u32) -> (nanos: u64)
    ensures
        nanos == millis * 1000000,
{
    let factor: u64 = PERIOD_NS_MULT as u64;
    assert(factor == 1000000);
    (millis as u64) * factor
}

/// Only a step that takes in a reading can change what the loop remembers,
/// and only a step that takes in a reading can ask for a sending.
pub proof fn lemma_only_readings_commit(state: PollLoop, event: Event)
    ensures
        !(event is Reading) ==> state.next(event).state == state,
        state.next(event).action is Send ==> event is Reading,
        state.next(event).state.delay == state.delay,
        state.next(event).state.quit_on_send_error == state.quit_on_send_error,
{
}

/// What is sent is what the debouncer has just committed: after a step that
/// asks for a sending, the rotation to send is the committed one.
pub proof fn lemma_sent_is_committed(state: PollLoop, event: Event)
    requires
        state.next(event).action is Send,
    ensures
        state.next(event).state.debounce.last_committed == Some(state.next(event).action->Send_0),
        state.debounce.last_committed != Some(state.next(event).action->Send_0),
{
}

/// The loop ends on three occasions only: on a signal, with status 0; on the
/// loss of the signal thread, with status 17; and on a failed sending where
/// the loop is set to end on that, with status 4.
pub proof fn lemma_stops(state: PollLoop, event: Event)
    ensures
        state.next(event).action is Stop <==> {
            ||| event == Event::Signal(SignalCheck::Received)
            ||| event == Event::Signal(SignalCheck::Disconnected)
            ||| (event == Event::Sent(false) && state.quit_on_send_error)
        },
        event == Event::Signal(SignalCheck::Received) ==> state.next(event).action == Action::Stop(
            0,
        ),
        event == Event::Signal(SignalCheck::Disconnected) ==> state.next(event).action
            == Action::Stop(EXIT_SIGNAL_THREAD_DIED),
        event == Event::Sent(false) && state.quit_on_send_error ==> state.next(event).action
            == Action::Stop(EXIT_SEND_FAILED),
{
}

} // verus!
