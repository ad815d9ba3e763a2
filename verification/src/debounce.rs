//! Debouncing: a rotation is reported once it has been sensed for long enough.
//!
//! While a device is being turned it passes through orientations that nobody
//! wants to see on the screen. The state here remembers the rotation that was
//! sensed last and since when; `DebounceState::tick` commits a rotation, and
//! hands it out for sending, once it has been sensed without a break for the
//! commit delay. Times are counts of one unit of the caller's choice, taken
//! from a clock that does not run backwards.

use vstd::prelude::*;
use crate::rotation::Rotation;

verus! {

/// What the debouncer remembers between two polls.
#[derive(Debug, PartialEq, Eq, Structural, Clone, Copy)]
pub struct DebounceState {
    /// The rotation sensed last, if any was.
    pub last_classified: Option<Rotation>,
    /// The rotation reported last, if any was.
    pub last_committed: Option<Rotation>,
    /// When `last_classified` took its present value.
    pub change_timestamp: u64,
}

/// One poll: what was sensed, and when.
pub struct Tick {
    pub reading: Option<Rotation>,
    pub now: u64,
}

/// What one poll leads to: the state after it and the rotation to report, if
/// there is one.
pub struct Outcome {
    pub state: DebounceState,
    pub emitted: Option<Rotation>,
}

/// What a run of polls leads to: the state after it and the rotations
/// reported on the way, in order.
pub struct Trace {
    pub state: DebounceState,
    pub emitted: Seq<Rotation>,
}

/// The time from `since` to `now`; zero where `now` is the earlier one.
pub open spec fn elapsed(since: u64, now: u64) -> nat {
    if now >= since {
        (now - since) as nat
    } else {
        0
    }
}

impl DebounceState {
    /// The state in which nothing has been sensed or reported.
    pub open spec fn idle(now: u64) -> DebounceState {
        DebounceState { last_classified: None, last_committed: None, change_timestamp: now }
    }

    /// One poll.
    ///
    /// - Nothing sensed: nothing changes.
    /// - A rotation other than the one sensed last: it becomes the candidate,
    ///   held since `now`.
    /// - The candidate again: it is committed and reported if it has been
    ///   held for `delay` or longer and is not what was reported last.
    pub open spec fn step(self, reading: Option<Rotation>, now: u64, delay: u64) -> Outcome {
        if reading is None {
            Outcome { state: self, emitted: None }
        } else if self.last_classified != reading {
            Outcome {
                state: DebounceState {
                    last_classified: reading,
                    last_committed: self.last_committed,
                    change_timestamp: now,
                },
                emitted: None,
            }
        } else if self.last_committed != reading && elapsed(self.change_timestamp, now) >= delay {
            Outcome {
                state: DebounceState {
                    last_classified: self.last_classified,
                    last_committed: reading,
                    change_timestamp: self.change_timestamp,
                },
                emitted: reading,
            }
        } else {
            Outcome { state: self, emitted: None }
        }
    }

    /// A run of polls, one after the other.
    pub open spec fn run(self, ticks: Seq<Tick>, delay: u64) -> Trace
        decreases ticks.len(),
    {
        if ticks.len() == 0 {
            Trace { state: self, emitted: Seq::empty() }
        } else {
            let first = self.step(ticks[0].reading, ticks[0].now, delay);
            let rest = first.state.run(ticks.skip(1), delay);
            Trace {
                state: rest.state,
                emitted: if first.emitted is Some {
                    seq![first.emitted->0] + rest.emitted
                } else {
                    rest.emitted
                },
            }
        }
    }

    /// Returns the state in which nothing has been sensed or reported.
    pub fn new(now: u64) -> (state: DebounceState)
        ensures
            state == DebounceState::idle(now),
    {
        DebounceState { last_classified: None, last_committed: None, change_timestamp: now }
    }

    /// Takes in one poll and returns the rotation to report, if this poll
    /// commits one.
    ///
    /// A rotation counts as committed from here on, whether or not the
    /// caller manages to deliver it.
    pub fn tick(&mut self, reading: Option<Rotation>, now: u64, delay: u64) -> (emitted: Option<
        Rotation,
    >)
        ensures
            *final(self) == old(self).step(reading, now, delay).state,
            emitted == old(self).step(reading, now, delay).emitted,
    {
        let rotation = match reading {
            Some(rotation) => rotation,
            None => {
                return None;
            },
        };
        let same = match self.last_classified {
            Some(last) => last == rotation,
            None => false,
        };
        if !same {
            self.last_classified = reading;
            self.change_timestamp = now;
            return None;
        }
        let committed = match self.last_committed {
            Some(last) => last == rotation,
            None => false,
        };
        let held: u64 = if now >= self.change_timestamp {
            now - self.change_timestamp
        } else {
            0
        };
        if !committed && held >= delay {
            self.last_committed = reading;
            reading
        } else {
            None
        }
    }
}

/// Whether every poll of `ticks` senses `rotation`.
pub open spec fn all_sense(ticks: Seq<Tick>, rotation: Rotation) -> bool {
    forall|i: int| 0 <= i < ticks.len() ==> (#[trigger] ticks[i]).reading == Some(rotation)
}

/// Whether some poll of `ticks` comes `delay` or longer after `since`.
pub open spec fn held_for(ticks: Seq<Tick>, since: u64, delay: u64) -> bool {
    exists|i: int| 0 <= i < ticks.len() && elapsed(since, (#[trigger] ticks[i]).now) >= delay
}

/// A rotation that is sensed for the first time becomes the candidate and is
/// not reported, however short the delay.
pub proof fn lemma_first_sighting(
    state: DebounceState,
    rotation: Rotation,
    now: u64,
    delay: u64,
)
    requires
        state.last_classified != Some(rotation),
    ensures
        state.step(Some(rotation), now, delay).emitted is None,
        state.step(Some(rotation), now, delay).state == (DebounceState {
            last_classified: Some(rotation),
            last_committed: state.last_committed,
            change_timestamp: now,
        }),
{
}

/// A poll that senses nothing changes nothing: it neither restarts the time
/// for which the candidate is held nor takes back what was reported.
pub proof fn lemma_flat_changes_nothing(state: DebounceState, now: u64, delay: u64)
    ensures
        state.step(None, now, delay).emitted is None,
        state.step(None, now, delay).state == state,
{
}

/// While the candidate has been held for less than the delay, nothing is
/// reported and the state stays as it is.
pub proof fn lemma_held_short(
    state: DebounceState,
    rotation: Rotation,
    ticks: Seq<Tick>,
    delay: u64,
)
    requires
        state.last_classified == Some(rotation),
        all_sense(ticks, rotation),
        !held_for(ticks, state.change_timestamp, delay),
    ensures
        state.run(ticks, delay).emitted == Seq::<Rotation>::empty(),
        state.run(ticks, delay).state == state,
    decreases ticks.len(),
{
    if ticks.len() > 0 {
        let rest = ticks.skip(1);
        assert(ticks[0].reading == Some(rotation));
        assert(elapsed(state.change_timestamp, ticks[0].now) < delay);
        assert forall|i: int| 0 <= i < rest.len() implies (#[trigger] rest[i]).reading == Some(
            rotation,
        ) && elapsed(state.change_timestamp, rest[i].now) < delay by {
            assert(rest[i] == ticks[i + 1]);
        }
        lemma_held_short(state, rotation, rest, delay);
    }
}

/// Once a rotation is committed, sensing it further reports nothing, for
/// however long.
pub proof fn lemma_committed_is_silent(
    state: DebounceState,
    rotation: Rotation,
    ticks: Seq<Tick>,
    delay: u64,
)
    requires
        state.last_classified == Some(rotation),
        state.last_committed == Some(rotation),
        all_sense(ticks, rotation),
    ensures
        state.run(ticks, delay).emitted == Seq::<Rotation>::empty(),
        state.run(ticks, delay).state == state,
    decreases ticks.len(),
{
    if ticks.len() > 0 {
        let rest = ticks.skip(1);
        assert(ticks[0].reading == Some(rotation));
        assert forall|i: int| 0 <= i < rest.len() implies (#[trigger] rest[i]).reading == Some(
            rotation,
        ) by {
            assert(rest[i] == ticks[i + 1]);
        }
        lemma_committed_is_silent(state, rotation, rest, delay);
    }
}

/// Once the candidate has been held for the delay, it is reported, exactly
/// once, and then stands as committed.
pub proof fn lemma_held_long(
    state: DebounceState,
    rotation: Rotation,
    ticks: Seq<Tick>,
    delay: u64,
)
    requires
        state.last_classified == Some(rotation),
        state.last_committed != Some(rotation),
        all_sense(ticks, rotation),
        held_for(ticks, state.change_timestamp, delay),
    ensures
        state.run(ticks, delay).emitted == seq![rotation],
        state.run(ticks, delay).state == (DebounceState {
            last_classified: Some(rotation),
            last_committed: Some(rotation),
            change_timestamp: state.change_timestamp,
        }),
    decreases ticks.len(),
{
    let k = choose|i: int|
        0 <= i < ticks.len() && elapsed(state.change_timestamp, (#[trigger] ticks[i]).now) >= delay;
    let rest = ticks.skip(1);
    assert(ticks[0].reading == Some(rotation));
    assert forall|i: int| 0 <= i < rest.len() implies (#[trigger] rest[i]).reading == Some(
        rotation,
    ) by {
        assert(rest[i] == ticks[i + 1]);
    }
    let first = state.step(ticks[0].reading, ticks[0].now, delay);
    if elapsed(state.change_timestamp, ticks[0].now) >= delay {
        lemma_committed_is_silent(first.state, rotation, rest, delay);
        assert(seq![rotation] + Seq::<Rotation>::empty() =~= seq![rotation]);
    } else {
        assert(k > 0);
        assert(rest[k - 1] == ticks[k]);
        lemma_held_long(state, rotation, rest, delay);
    }
}

/// The whole of it, from the first sighting on. Let a rotation that is
/// neither the candidate nor committed be sensed in every poll of a run.
/// The first poll makes it the candidate. If no later poll comes the delay
/// or longer after the first, nothing is reported; otherwise the rotation
/// is reported exactly once, whatever number of polls follows.
pub proof fn lemma_debounce(
    state: DebounceState,
    rotation: Rotation,
    ticks: Seq<Tick>,
    delay: u64,
)
    requires
        state.last_classified != Some(rotation),
        state.last_committed != Some(rotation),
        ticks.len() > 0,
        all_sense(ticks, rotation),
    ensures
        state.run(ticks, delay).emitted == if held_for(ticks.skip(1), ticks[0].now, delay) {
            seq![rotation]
        } else {
            Seq::<Rotation>::empty()
        },
{
    let rest = ticks.skip(1);
    assert(ticks[0].reading == Some(rotation));
    assert forall|i: int| 0 <= i < rest.len() implies (#[trigger] rest[i]).reading == Some(
        rotation,
    ) by {
        assert(rest[i] == ticks[i + 1]);
    }
    let first = state.step(ticks[0].reading, ticks[0].now, delay);
    if held_for(rest, ticks[0].now, delay) {
        lemma_held_long(first.state, rotation, rest, delay);
    } else {
        lemma_held_short(first.state, rotation, rest, delay);
    }
}

/// What is reported has been held: a poll reports a rotation only if it
/// senses that rotation, the rotation was the candidate already and has been
/// for the delay or longer, and it is not what was reported last.
pub proof fn lemma_emitted_was_held(
    state: DebounceState,
    reading: Option<Rotation>,
    now: u64,
    delay: u64,
)
    requires
        state.step(reading, now, delay).emitted is Some,
    ensures
        state.step(reading, now, delay).emitted == reading,
        state.last_classified == reading,
        state.last_committed != reading,
        elapsed(state.change_timestamp, now) >= delay,
        state.step(reading, now, delay).state.last_committed == reading,
{
}

/// Nothing is reported twice in a row. Whatever is sensed in a run of polls,
/// the first rotation reported is not the one that was committed before the
/// run, no rotation reported is the one reported before it, and the rotation
/// committed after the run is the one reported last.
pub proof fn lemma_no_repeats(state: DebounceState, ticks: Seq<Tick>, delay: u64)
    ensures
        ({
            let trace = state.run(ticks, delay);
            &&& trace.emitted.len() > 0 ==> state.last_committed != Some(trace.emitted[0])
            &&& forall|i: int|
                0 <= i < trace.emitted.len() - 1 ==> #[trigger] trace.emitted[i]
                    != trace.emitted[i + 1]
            &&& trace.state.last_committed == if trace.emitted.len() > 0 {
                Some(trace.emitted.last())
            } else {
                state.last_committed
            }
        }),
    decreases ticks.len(),
{
    if ticks.len() > 0 {
        let first = state.step(ticks[0].reading, ticks[0].now, delay);
        let rest = first.state.run(ticks.skip(1), delay);
        lemma_no_repeats(first.state, ticks.skip(1), delay);
        let trace = state.run(ticks, delay);
        if first.emitted is Some {
            let head = first.emitted->0;
            assert(trace.emitted =~= seq![head] + rest.emitted);
            assert(first.state.last_committed == Some(head));
            assert forall|i: int|
                0 <= i < trace.emitted.len() - 1 implies #[trigger] trace.emitted[i]
                != trace.emitted[i + 1] by {
                if i > 0 {
                    assert(trace.emitted[i] == rest.emitted[i - 1]);
                    assert(trace.emitted[i + 1] == rest.emitted[i]);
                }
            }
        } else {
            assert(first.state.last_committed == state.last_committed);
        }
    }
}

} // verus!
