use tickloop::game::state::{GameState, TimeState};
use tickloop::game::Command;

#[test]
fn test_add_point() {
    let mut state = GameState::new();
    state.points = 5;

    state = state.step(Some(Command::AddPoint));

    assert_eq!(state.points, 6);
}

#[test]
fn test_time_advance_second() {
    let mut state = GameState::new();
    state.time.advance(995);

    state = state.step(None);

    assert_eq!(state.time.day, 0);
    assert_eq!(state.time.second, 1);
}

#[test]
fn test_time_advance_day() {
    let mut state = GameState::new();
    state.time = TimeState {
        day: 3,
        second: 86399,
        next_second: 5,
    };

    state = state.step(None);

    assert_eq!(state.time.day, 4);
    assert_eq!(state.time.second, 0);
}

#[test]
fn step_counts_every_tick() {
    let mut state = GameState::new();

    state = state.step(None);
    state = state.step(Some(Command::AddPoint));
    state = state.step(None);

    assert_eq!(state.tick, 3);
    assert_eq!(state.points, 1);
}

#[test]
fn set_speed_applies_from_next_tick() {
    let mut state = GameState::new();
    state.time = TimeState {
        day: 0,
        second: 86395,
        next_second: 1000,
    };

    state = state.step(Some(Command::SetSpeed { speed: 3601 }));

    // The consuming tick stores the new speed but still advanced at the old one.
    assert_eq!(state.speed, 3601);
    assert_eq!(state.time.day, 0);
    assert_eq!(state.time.second, 86395);
    assert_eq!(state.time.next_second, 990);

    state = state.step(None);

    // One tick at speed 3601 advances 36010 simulated milliseconds, here
    // across the day boundary.
    assert_eq!(state.time.day, 1);
    assert_eq!(state.time.second, 31);
    assert_eq!(state.time.next_second, 980);
    assert_eq!(state.tick, 2);
}

#[test]
fn out_of_range_speed_is_accepted_as_given() {
    let mut state = GameState::new();

    state = state.step(Some(Command::SetSpeed { speed: 0 }));
    assert_eq!(state.speed, 0);
    assert_eq!(state.time.next_second, 990);

    // A tick at speed 0 leaves simulated time unchanged.
    state = state.step(None);
    assert_eq!(state.time.day, 0);
    assert_eq!(state.time.second, 0);
    assert_eq!(state.time.next_second, 990);
    assert_eq!(state.tick, 2);
}
