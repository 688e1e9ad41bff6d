use tickloop::engine::{Command, Engine};

#[test]
fn engine_scores_one_point_per_tick() {
    let mut eng = Engine::new();
    assert!(eng.get_state().is_none());

    eng.start();
    eng.apply(Command::AddPoint);
    eng.apply(Command::AddPoint);

    eng.run_iteration(10);
    let rs = eng.get_state().unwrap();
    assert_eq!(rs.tick, 1);
    assert_eq!(rs.points, 1);

    eng.run_iteration(25);
    let rs = eng.get_state().unwrap();
    assert_eq!(rs.tick, 3);
    assert_eq!(rs.points, 2);
}

#[test]
fn engine_drops_commands_before_start() {
    let mut eng = Engine::new();
    eng.apply(Command::AddPoint);

    eng.start();
    eng.run_iteration(10);

    let rs = eng.get_state().unwrap();
    assert_eq!(rs.tick, 1);
    assert_eq!(rs.points, 0);
}
