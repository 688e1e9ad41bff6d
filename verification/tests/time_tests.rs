use tickloop::game::time::TimeState;

#[test]
fn test_advance_second() {
    let mut time = TimeState {
        speed: 1,

        day: 2,
        second: 14,
        millis: 650,
    };

    time.advance(500);

    assert_eq!(time.day, 2);
    assert_eq!(time.second, 15);
    assert_eq!(time.millis, 150);
}

#[test]
fn test_advance_day() {
    let mut time = TimeState {
        speed: 1,

        day: 3,
        second: 86399,
        millis: 995,
    };

    time.advance(10);

    assert_eq!(time.day, 4);
    assert_eq!(time.second, 0);
    assert_eq!(time.millis, 5);
}

#[test]
fn test_speed() {
    let mut time = TimeState {
        speed: 30,

        day: 2,
        second: 14,
        millis: 650,
    };

    time = time.step(None);

    assert_eq!(time.day, 2);
    assert_eq!(time.second, 14);
    assert_eq!(time.millis, 950);
}

#[test]
fn advance_spans_whole_days() {
    let mut time = TimeState {
        speed: 1,

        day: 0,
        second: 0,
        millis: 0,
    };

    // One day, one hour, one minute, one second and one millisecond at once.
    time.advance(90061001);

    assert_eq!(time.day, 1);
    assert_eq!(time.second, 3661);
    assert_eq!(time.millis, 1);
}

#[test]
fn new_clock_is_zero() {
    let time = TimeState::new();

    assert_eq!(time.speed, 1);
    assert_eq!(time.day, 0);
    assert_eq!(time.second, 0);
    assert_eq!(time.millis, 0);
}

#[test]
fn high_speed_tick_crosses_second_boundary() {
    let mut time = TimeState {
        speed: 3601,

        day: 0,
        second: 86399,
        millis: 500,
    };

    // One tick at speed 3601 advances 36010 simulated milliseconds.
    time = time.step(None);

    assert_eq!(time.day, 1);
    assert_eq!(time.second, 35);
    assert_eq!(time.millis, 510);
}
