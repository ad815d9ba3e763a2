use spinnrd::debounce::DebounceState;
use spinnrd::rotation::Rotation;

#[test]
fn a_new_state_has_sensed_and_reported_nothing() {
    let state = DebounceState::new(42);
    assert_eq!(state.last_classified, None);
    assert_eq!(state.last_committed, None);
    assert_eq!(state.change_timestamp, 42);
}

#[test]
fn held_for_less_than_the_delay_nothing_is_reported() {
    let mut state = DebounceState::new(0);
    for now in [0u64, 1, 100, 200, 349] {
        assert_eq!(state.tick(Some(Rotation::Left), now, 350), None);
    }
    assert_eq!(state.last_classified, Some(Rotation::Left));
    assert_eq!(state.last_committed, None);
    assert_eq!(state.change_timestamp, 0);
}

#[test]
fn held_for_the_delay_it_is_reported_exactly_once() {
    let mut state = DebounceState::new(1000);
    let mut reported = Vec::new();
    let mut now = 1000u64;
    while now <= 5000 {
        if let Some(rotation) = state.tick(Some(Rotation::Right), now, 350) {
            reported.push((now, rotation));
        }
        now += 50;
    }
    assert_eq!(reported, vec![(1350, Rotation::Right)]);
    assert_eq!(state.last_committed, Some(Rotation::Right));
}

#[test]
fn the_first_sighting_is_never_reported() {
    let mut state = DebounceState::new(0);
    assert_eq!(state.tick(Some(Rotation::Inverted), 1_000_000, 0), None);
    assert_eq!(state.change_timestamp, 1_000_000);
    assert_eq!(state.tick(Some(Rotation::Inverted), 1_000_000, 0), Some(Rotation::Inverted));
    assert_eq!(state.tick(Some(Rotation::Inverted), 1_000_001, 0), None);
}

#[test]
fn a_poll_that_senses_nothing_changes_nothing() {
    let mut state = DebounceState::new(0);
    assert_eq!(state.tick(None, 10, 350), None);
    assert_eq!(state, DebounceState::new(0));
    assert_eq!(state.tick(Some(Rotation::Left), 100, 350), None);
    let pending = state;
    assert_eq!(state.tick(None, 200, 350), None);
    assert_eq!(state.tick(None, 10_000, 350), None);
    assert_eq!(state, pending);
    // the time for which the candidate is held runs on
    assert_eq!(state.tick(Some(Rotation::Left), 450, 350), Some(Rotation::Left));
    let committed = state;
    assert_eq!(state.tick(None, 500, 350), None);
    assert_eq!(state, committed);
}

#[test]
fn another_rotation_starts_the_time_anew() {
    let mut state = DebounceState::new(0);
    assert_eq!(state.tick(Some(Rotation::Left), 0, 350), None);
    assert_eq!(state.tick(Some(Rotation::Left), 300, 350), None);
    assert_eq!(state.tick(Some(Rotation::Inverted), 340, 350), None);
    assert_eq!(state.change_timestamp, 340);
    assert_eq!(state.tick(Some(Rotation::Left), 360, 350), None);
    assert_eq!(state.change_timestamp, 360);
    assert_eq!(state.tick(Some(Rotation::Left), 709, 350), None);
    assert_eq!(state.tick(Some(Rotation::Left), 710, 350), Some(Rotation::Left));
}

#[test]
fn a_passing_rotation_does_not_bring_the_committed_one_back() {
    let mut state = DebounceState::new(0);
    assert_eq!(state.tick(Some(Rotation::Normal), 0, 350), None);
    assert_eq!(state.tick(Some(Rotation::Normal), 400, 350), Some(Rotation::Normal));
    assert_eq!(state.tick(Some(Rotation::Left), 500, 350), None);
    assert_eq!(state.tick(Some(Rotation::Normal), 600, 350), None);
    assert_eq!(state.tick(Some(Rotation::Normal), 2000, 350), None);
    assert_eq!(state.last_committed, Some(Rotation::Normal));
}

#[test]
fn one_rotation_after_the_other_is_reported() {
    let mut state = DebounceState::new(0);
    let readings = [
        (0u64, Some(Rotation::Left)),
        (150, Some(Rotation::Left)),
        (300, Some(Rotation::Left)),
        (450, Some(Rotation::Left)),
        (600, None),
        (750, Some(Rotation::Inverted)),
        (900, Some(Rotation::Right)),
        (1050, Some(Rotation::Right)),
        (1200, Some(Rotation::Right)),
        (1350, Some(Rotation::Right)),
        (1500, Some(Rotation::Right)),
    ];
    let mut reported = Vec::new();
    for (now, reading) in readings {
        if let Some(rotation) = state.tick(reading, now, 350) {
            reported.push((now, rotation));
        }
    }
    assert_eq!(reported, vec![(450, Rotation::Left), (1350, Rotation::Right)]);
}

#[test]
fn a_clock_that_ran_backwards_counts_as_no_time_passed() {
    let mut state = DebounceState::new(0);
    assert_eq!(state.tick(Some(Rotation::Left), 1000, 350), None);
    assert_eq!(state.tick(Some(Rotation::Left), 10, 350), None);
    assert_eq!(state.tick(Some(Rotation::Left), 10, 0), Some(Rotation::Left));
}

#[test]
fn the_longest_times_do_not_overflow() {
    let mut state = DebounceState::new(0);
    assert_eq!(state.tick(Some(Rotation::Left), 0, u64::MAX), None);
    assert_eq!(state.tick(Some(Rotation::Left), u64::MAX - 1, u64::MAX), None);
    assert_eq!(state.tick(Some(Rotation::Left), u64::MAX, u64::MAX), Some(Rotation::Left));
}
