use tickloop::game::{Command, Game};

#[test]
fn snapshot_absent_before_first_batch() {
    let mut game = Game::new();
    assert!(game.get_state().is_none());

    game.start();
    assert!(game.get_state().is_none());

    game.run_iteration(10);

    let rs = game.get_state().unwrap();
    assert_eq!(rs.tick, 1);
    assert_eq!(rs.points, 0);
    assert_eq!(rs.speed, 1);
    assert_eq!(rs.day, 0);
    assert_eq!(rs.second, 0);
}

#[test]
fn single_add_point_scores_once() {
    let mut game = Game::new();
    game.start();
    game.apply(Command::AddPoint);

    game.run_iteration(10);

    let rs = game.get_state().unwrap();
    assert_eq!(rs.points, 1);
    assert!(rs.tick >= 1);
}

#[test]
fn one_command_per_tick_in_fifo_order() {
    let mut game = Game::new();
    game.start();
    game.apply(Command::AddPoint);
    game.apply(Command::SetSpeed { speed: 2 });
    game.apply(Command::AddPoint);

    game.run_iteration(10);
    let rs = game.get_state().unwrap();
    assert_eq!(rs.tick, 1);
    assert_eq!(rs.points, 1);
    assert_eq!(rs.speed, 1);

    game.run_iteration(10);
    let rs = game.get_state().unwrap();
    assert_eq!(rs.tick, 2);
    assert_eq!(rs.points, 1);
    assert_eq!(rs.speed, 2);

    game.run_iteration(10);
    let rs = game.get_state().unwrap();
    assert_eq!(rs.tick, 3);
    assert_eq!(rs.points, 2);
    assert_eq!(rs.speed, 2);
}

#[test]
fn queued_commands_drain_one_tick_each() {
    let mut game = Game::new();
    game.start();
    for _ in 0..4 {
        game.apply(Command::AddPoint);
    }

    // 40 milliseconds owed: four ticks, each consuming one queued command.
    game.run_iteration(40);

    let rs = game.get_state().unwrap();
    assert_eq!(rs.tick, 4);
    assert_eq!(rs.points, 4);
}

#[test]
fn hundred_ticks_advance_one_second() {
    let mut game = Game::new();
    game.start();

    game.run_iteration(1000);

    let rs = game.get_state().unwrap();
    assert_eq!(rs.tick, 100);
    assert_eq!(rs.day, 0);
    assert_eq!(rs.second, 1);
}

#[test]
fn lag_below_one_tick_is_kept() {
    let mut game = Game::new();
    game.start();

    game.run_iteration(9);
    assert_eq!(game.get_state().unwrap().tick, 0);

    game.run_iteration(9);
    assert_eq!(game.get_state().unwrap().tick, 1);

    game.run_iteration(2);
    assert_eq!(game.get_state().unwrap().tick, 2);
}

#[test]
fn disconnect_stops_worker_without_republishing() {
    let mut game = Game::new();
    game.start();
    game.apply(Command::AddPoint);
    game.close();

    // Three ticks owed: the first consumes the queued command, the second
    // finds the inbox empty and torn down, so the worker stops and the
    // partial batch publishes nothing.
    game.run_iteration(30);

    assert!(game.get_state().is_none());
}

#[test]
fn disconnect_unobserved_while_commands_remain() {
    let mut game = Game::new();
    game.start();
    game.apply(Command::AddPoint);
    game.apply(Command::AddPoint);
    game.close();

    // Both ticks find a queued command, so the disconnect goes unobserved
    // and the batch publishes as usual.
    game.run_iteration(20);

    let rs = game.get_state().unwrap();
    assert_eq!(rs.tick, 2);
    assert_eq!(rs.points, 2);
}
