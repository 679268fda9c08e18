use snake_game::game::GameState;
use snake_game::snapshot::Snapshot;
use snake_game::structs::{Direction, State, Tile, Vector};

fn at(x: usize, y: usize) -> Vector {
    Vector { x, y }
}

fn sample() -> Snapshot {
    Snapshot {
        dimensions: at(4, 3),
        head_position: at(2, 1),
        tail_positions: vec![at(1, 1), at(1, 0), at(0, 0)],
        fruit_position: at(3, 2),
        movement_direction: Direction::Right,
        queued_direction: Some(Direction::Down),
        state: State::Running,
        ms_since_last_update: 123,
    }
}

#[test]
fn snapshot_of_a_restored_game_is_the_snapshot() {
    let snapshot = sample();
    let game = GameState::restore(&snapshot, 8).unwrap();
    assert_eq!(game.snapshot(), snapshot);
    assert_eq!(game.dimensions(), at(4, 3));
    assert_eq!(game.head_position(), at(2, 1));
    assert_eq!(game.tail_positions().len(), 3);
    assert_eq!(game.tail_positions()[0], at(1, 1));
    assert_eq!(game.tail_positions()[2], at(0, 0));
    assert_eq!(game.fruit_position(), at(3, 2));
    assert_eq!(game.movement_direction(), Direction::Right);
    assert_eq!(game.queued_direction(), Some(Direction::Down));
    assert_eq!(game.state(), State::Running);
    assert_eq!(game.ms_since_last_update(), 123);
}

#[test]
fn restored_grid_shows_snake_and_fruit() {
    let game = GameState::restore(&sample(), 8).unwrap();
    let covered = [at(2, 1), at(1, 1), at(1, 0), at(0, 0), at(3, 2)];
    for y in 0..3 {
        for x in 0..4 {
            let position = at(x, y);
            let tile = Tile { position, is_occupied: covered.contains(&position) };
            assert_eq!(game.tile(position), Some(tile));
        }
    }
    assert_eq!(game.free_tiles(), 7);
}

#[test]
fn snapshot_of_a_fresh_game() {
    let game = GameState::with_seed(at(10, 10), 77).ok().unwrap();
    let expected = Snapshot {
        dimensions: at(10, 10),
        head_position: at(5, 5),
        tail_positions: vec![],
        fruit_position: game.fruit_position(),
        movement_direction: Direction::Right,
        queued_direction: None,
        state: State::Running,
        ms_since_last_update: 300,
    };
    assert_eq!(game.snapshot(), expected);
}

#[test]
fn grid_without_room_is_not_restored() {
    for dimensions in [at(0, 0), at(1, 1), at(0, 3), at(3, 0)] {
        let snapshot = Snapshot {
            dimensions,
            head_position: at(0, 0),
            tail_positions: vec![],
            fruit_position: at(0, 0),
            movement_direction: Direction::Up,
            queued_direction: None,
            state: State::Lost,
            ms_since_last_update: 0,
        };
        assert!(GameState::restore(&snapshot, 1).is_none());
    }
    let snapshot = Snapshot { dimensions: at(usize::MAX, 3), ..sample() };
    assert!(GameState::restore(&snapshot, 1).is_none());
}

#[test]
fn parts_off_the_grid_are_not_restored() {
    for state in [State::Running, State::Won, State::Lost] {
        for off in [at(4, 0), at(0, 3), at(4, 3), at(usize::MAX, 0)] {
            let snapshot = Snapshot { head_position: off, state, ..sample() };
            assert!(GameState::restore(&snapshot, 1).is_none());
            let snapshot = Snapshot { fruit_position: off, state, ..sample() };
            assert!(GameState::restore(&snapshot, 1).is_none());
            let snapshot = Snapshot { tail_positions: vec![at(1, 1), off], state, ..sample() };
            assert!(GameState::restore(&snapshot, 1).is_none());
        }
    }
}

#[test]
fn tail_on_one_tile_twice_is_not_restored() {
    for state in [State::Running, State::Won, State::Lost] {
        for tail in [vec![at(1, 1), at(1, 0), at(1, 1)], vec![at(0, 0), at(0, 0)]] {
            let snapshot = Snapshot { tail_positions: tail.clone(), state, ..sample() };
            assert!(GameState::restore(&snapshot, 1).is_none());
            let snapshot = Snapshot {
                tail_positions: tail,
                fruit_position: at(2, 1),
                state,
                ..sample()
            };
            assert!(GameState::restore(&snapshot, 1).is_none());
        }
    }
}

#[test]
fn head_on_the_tail_is_restored_only_as_lost() {
    let tail = vec![at(1, 1), at(2, 1)];
    let snapshot = Snapshot { tail_positions: tail.clone(), ..sample() };
    assert!(GameState::restore(&snapshot, 1).is_none());
    let snapshot = Snapshot {
        tail_positions: tail.clone(),
        fruit_position: at(2, 1),
        state: State::Won,
        ..sample()
    };
    assert!(GameState::restore(&snapshot, 1).is_none());
    let snapshot = Snapshot { tail_positions: tail, state: State::Lost, ..sample() };
    let game = GameState::restore(&snapshot, 1).unwrap();
    assert_eq!(game.snapshot(), snapshot);
    assert_eq!(game.free_tiles(), 9);
}

#[test]
fn fruit_under_the_snake_is_restored_only_as_won() {
    for state in [State::Running, State::Lost] {
        for fruit in [at(2, 1), at(1, 1), at(0, 0)] {
            let snapshot = Snapshot { fruit_position: fruit, state, ..sample() };
            assert!(GameState::restore(&snapshot, 1).is_none());
        }
    }
    for state in [State::Running, State::Lost] {
        let snapshot = Snapshot { state, ..sample() };
        assert!(GameState::restore(&snapshot, 1).is_some());
    }
}

#[test]
fn won_game_is_restored_only_with_a_full_grid() {
    let full = Snapshot {
        dimensions: at(2, 2),
        head_position: at(1, 0),
        tail_positions: vec![at(1, 1), at(0, 1), at(0, 0)],
        fruit_position: at(1, 0),
        movement_direction: Direction::Up,
        queued_direction: None,
        state: State::Won,
        ms_since_last_update: 0,
    };
    let game = GameState::restore(&full, 1).unwrap();
    assert_eq!(game.snapshot(), full);
    assert_eq!(game.free_tiles(), 0);
    let gap = Snapshot { tail_positions: vec![at(1, 1), at(0, 1)], ..full.clone() };
    assert!(GameState::restore(&gap, 1).is_none());
    let elsewhere = Snapshot {
        tail_positions: vec![at(1, 1), at(0, 1)],
        fruit_position: at(0, 0),
        ..full.clone()
    };
    assert!(GameState::restore(&elsewhere, 1).is_none());
}

#[test]
fn lost_game_is_restored_as_it_was_left() {
    let mut game = GameState::restore(&sample(), 1).unwrap();
    game.handle_direction_input(Direction::Up);
    game.advance_tick(400);
    game.handle_direction_input(Direction::Left);
    game.advance_tick(400);
    assert_eq!(game.state(), State::Lost);
    assert_eq!(game.head_position(), at(1, 0));
    let written = game.snapshot();
    let mut again = GameState::restore(&written, 2).unwrap();
    assert_eq!(again.snapshot(), written);
    again.advance_tick(1000);
    assert_eq!(again.snapshot(), written);
}
