use rand::rngs::StdRng;
use rand::{Rng, SeedableRng};
use snake_game::constants::MILLISECONDS_PER_FRAME;
use snake_game::game::GameState;
use snake_game::structs::{ConstructionError, Direction, State, Tile, Vector};

fn at(x: usize, y: usize) -> Vector {
    Vector { x, y }
}

#[test]
fn new_game_starts_in_the_centre() {
    let game = GameState::new(at(10, 10)).ok().unwrap();
    assert_eq!(game.dimensions(), at(10, 10));
    assert_eq!(game.head_position(), at(5, 5));
    assert!(game.tail_positions().is_empty());
    assert_eq!(game.movement_direction(), Direction::Right);
    assert_eq!(game.queued_direction(), None);
    assert_eq!(game.state(), State::Running);
    assert_eq!(game.ms_since_last_update(), MILLISECONDS_PER_FRAME);
    assert_eq!(MILLISECONDS_PER_FRAME, 300);
}

#[test]
fn new_game_centre_uses_integer_division() {
    let game = GameState::with_seed(at(7, 5), 3).ok().unwrap();
    assert_eq!(game.head_position(), at(3, 2));
    let game = GameState::with_seed(at(1, 2), 3).ok().unwrap();
    assert_eq!(game.head_position(), at(0, 1));
    let game = GameState::with_seed(at(2, 1), 3).ok().unwrap();
    assert_eq!(game.head_position(), at(1, 0));
}

#[test]
fn new_game_has_its_fruit_on_another_tile() {
    for seed in 0..200u64 {
        let game = GameState::with_seed(at(4, 3), seed).ok().unwrap();
        let fruit = game.fruit_position();
        assert!(fruit.x < 4 && fruit.y < 3);
        assert_ne!(fruit, game.head_position());
    }
    for _ in 0..50 {
        let game = GameState::new(at(3, 3)).ok().unwrap();
        let fruit = game.fruit_position();
        assert!(fruit.x < 3 && fruit.y < 3);
        assert_ne!(fruit, at(1, 1));
    }
}

#[test]
fn new_game_reaches_every_other_tile() {
    let mut seen = [[false; 3]; 2];
    for seed in 0..400u64 {
        let fruit = GameState::with_seed(at(3, 2), seed).ok().unwrap().fruit_position();
        seen[fruit.y][fruit.x] = true;
    }
    for y in 0..2 {
        for x in 0..3 {
            assert_eq!(seen[y][x], at(x, y) != at(1, 1));
        }
    }
}

#[test]
fn new_game_marks_head_and_fruit_and_nothing_else() {
    let game = GameState::with_seed(at(6, 4), 11).ok().unwrap();
    let head = game.head_position();
    let fruit = game.fruit_position();
    for y in 0..4 {
        for x in 0..6 {
            let position = at(x, y);
            let expected = Tile { position, is_occupied: position == head || position == fruit };
            assert_eq!(game.tile(position), Some(expected));
        }
    }
    assert_eq!(game.tile(at(6, 0)), None);
    assert_eq!(game.tile(at(0, 4)), None);
    assert_eq!(game.free_tiles(), 22);
}

#[test]
fn grid_without_room_is_refused() {
    for dimensions in [at(0, 0), at(1, 1), at(0, 7), at(7, 0), at(1, 0), at(0, 1)] {
        assert_eq!(GameState::new(dimensions).err(), Some(ConstructionError::TooSmall));
        assert_eq!(GameState::with_seed(dimensions, 9).err(), Some(ConstructionError::TooSmall));
    }
}

#[test]
fn grid_beyond_the_machine_is_refused() {
    let made = GameState::with_seed(at(usize::MAX, 2), 1);
    assert_eq!(made.err(), Some(ConstructionError::TooLarge));
    let made = GameState::new(at(usize::MAX / 2 + 1, usize::MAX / 2 + 1));
    assert_eq!(made.err(), Some(ConstructionError::TooLarge));
}

#[test]
fn two_tile_grids_leave_one_tile_for_the_fruit() {
    for seed in 0..20u64 {
        let game = GameState::with_seed(at(2, 1), seed).ok().unwrap();
        assert_eq!(game.head_position(), at(1, 0));
        assert_eq!(game.fruit_position(), at(0, 0));
        let game = GameState::with_seed(at(1, 2), seed).ok().unwrap();
        assert_eq!(game.head_position(), at(0, 1));
        assert_eq!(game.fruit_position(), at(0, 0));
        assert_eq!(game.free_tiles(), 0);
    }
}

#[test]
fn same_seed_same_fruit() {
    for seed in [0u64, 1, 42, u64::MAX] {
        let one = GameState::with_seed(at(30, 20), seed).ok().unwrap();
        let other = GameState::with_seed(at(30, 20), seed).ok().unwrap();
        assert_eq!(one.fruit_position(), other.fruit_position());
    }
}

#[test]
fn seeded_fruit_is_the_drawn_free_tile() {
    for seed in 0..100u64 {
        let game = GameState::with_seed(at(10, 10), seed).ok().unwrap();
        let draw: usize = StdRng::seed_from_u64(seed).gen_range(0..99);
        let number = if draw < 55 { draw } else { draw + 1 };
        assert_eq!(game.fruit_position(), at(number % 10, number / 10));
    }
}

#[test]
fn first_step_is_due_at_once() {
    let mut game = GameState::with_seed(at(9, 9), 5).ok().unwrap();
    game.advance_tick(0);
    assert_eq!(game.head_position(), at(5, 4));
    assert_eq!(game.ms_since_last_update(), 0);
    game.advance_tick(0);
    assert_eq!(game.head_position(), at(5, 4));
}
