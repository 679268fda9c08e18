use vstd::prelude::*;
use std::collections::VecDeque;
use rand::rngs::StdRng;
use crate::board::Board;
use crate::counting::{
    lemma_free_in_row_bound, lemma_free_in_rows_bound, lemma_nth_free_is, lemma_rank_below_count,
    lemma_tile_number,
};
use crate::constants::MILLISECONDS_PER_FRAME;
use crate::laws::{
    lemma_clock_counts_the_same, lemma_eating_covers_the_same, lemma_placement_unused,
    lemma_step_keeps_valid, lemma_wound_keeps_valid,
};
use crate::random::{fresh_seed, random_below, seeded_generator};
use crate::sequences::{
    lemma_drop_last_contains, lemma_push_contains, lemma_push_front_contains,
};
use crate::snapshot::Snapshot;
use crate::structs::{ConstructionError, Direction, State, Tile, Vector};

verus! {

/// How the first half of a step ended.
#[derive(Copy, Clone, Debug, PartialEq, Eq, Structural)]
enum Outcome {
    /// The head left the grid or ran into the tail.
    Crashed,
    /// The head moved onto a tile with nothing on it.
    Advanced,
    /// The head moved onto the fruit.
    Ate,
}

/// Whether `tiles` has the board's dimensions, every tile knows its own
/// position, and a tile is marked occupied exactly if the board's snake or
/// fruit is on it.
spec fn tiles_match(tiles: Vec<Vec<Tile>>, board: Board) -> bool {
    &&& tiles.len() == board.dimensions.y
    &&& forall|y: int| 0 <= y < tiles.len() ==> (#[trigger] tiles[y]).len() == board.dimensions.x
    &&& forall|y: int, x: int|
        0 <= y < tiles.len() && 0 <= x < tiles[y].len() ==> {
            let p = Vector { x: x as usize, y: y as usize };
            &&& (#[trigger] tiles[y][x]).position == p
            &&& tiles[y][x].is_occupied == board.occupied(p)
        }
}

/// A grid of the given dimensions on which no tile is occupied.
fn empty_grid(dimensions: Vector) -> (tiles: Vec<Vec<Tile>>)
    ensures
        tiles.len() == dimensions.y,
        forall|y: int| 0 <= y < tiles.len() ==> (#[trigger] tiles[y]).len() == dimensions.x,
        forall|y: int, x: int|
            0 <= y < tiles.len() && 0 <= x < tiles[y].len() ==> #[trigger] tiles[y][x] == (Tile {
                position: Vector { x: x as usize, y: y as usize },
                is_occupied: false,
            }),
{
    let mut tiles: Vec<Vec<Tile>> = Vec::new();
    let mut y: usize = 0;
    while y < dimensions.y
        invariant
            y <= dimensions.y,
            tiles.len() == y,
            forall|j: int| 0 <= j < tiles.len() ==> (#[trigger] tiles[j]).len() == dimensions.x,
            forall|j: int, i: int|
                0 <= j < tiles.len() && 0 <= i < tiles[j].len() ==> #[trigger] tiles[j][i] == (Tile {
                    position: Vector { x: i as usize, y: j as usize },
                    is_occupied: false,
                }),
        decreases dimensions.y - y,
    {
        let mut row: Vec<Tile> = Vec::new();
        let mut x: usize = 0;
        while x < dimensions.x
            invariant
                x <= dimensions.x,
                row.len() == x,
                forall|i: int|
                    0 <= i < row.len() ==> #[trigger] row[i] == (Tile {
                        position: Vector { x: i as usize, y },
                        is_occupied: false,
                    }),
            decreases dimensions.x - x,
        {
            row.push(Tile { position: Vector { x, y }, is_occupied: false });
            x += 1;
        }
        tiles.push(row);
        y += 1;
    }
    tiles
}

/// Used for keeping track of the game's state.
pub struct GameState {
    /// The position of the snake's head.
    head_position: Vector,
    /// The positions of the snake's tail parts, the newest first.
    tail_positions: VecDeque<Vector>,
    /// The dimensions of the grid.
    dimensions: Vector,
    /// The grid tiles: `tiles[y][x]` is the tile at `(x, y)`.
    tiles: Vec<Vec<Tile>>,
    /// The position of the fruit.
    fruit_position: Vector,
    /// The direction of movement of the snake.
    movement_direction: Direction,
    /// The next direction of movement of the snake.
    queued_direction: Option<Direction>,
    /// The current state of the game.
    state: State,
    /// The time elapsed since the last update.
    ms_since_last_update: usize,
    /// The source of the random draws that place the fruit.
    generator: StdRng,
}

impl View for GameState {
    type V = Board;

    closed spec fn view(&self) -> Board {
        Board {
            dimensions: self.dimensions,
            head: self.head_position,
            tail: self.tail_positions@,
            fruit: self.fruit_position,
            direction: self.movement_direction,
            queued: self.queued_direction,
            status: self.state,
            clock: self.ms_since_last_update as nat,
        }
    }
}

impl GameState {
    /// Whether the grid has the board's dimensions, every tile knows its own
    /// position, and a tile is marked occupied exactly if the snake or the
    /// fruit is on it.
    pub closed spec fn grid_matches(&self, board: Board) -> bool {
        tiles_match(self.tiles, board)
    }

    /// Whether the game is in order: the grid agrees with the snake and the
    /// fruit, and the game is a valid one.
    pub open spec fn well_formed(&self) -> bool {
        self.grid_matches(self@) && self@.valid()
    }

    /// Sets up a game on a grid of the given dimensions, with the fruit on a
    /// tile drawn at random by a generator that the system seeds.
    ///
    /// The head starts in the centre, moving right, with no tail; the fruit
    /// lies on any other tile, each with the same chance. The clock starts
    /// with a full tick on it, so that the first step is due at once. A grid
    /// with fewer than two tiles has no room for a head and a fruit and is
    /// refused.
    pub fn new(dimensions: Vector) -> (made: Result<GameState, ConstructionError>)
        ensures
            match made {
                Ok(game) => {
                    &&& 2 <= dimensions.x * dimensions.y <= usize::MAX
                    &&& game.well_formed()
                    &&& game@ == Board::initial(dimensions, game@.fruit)
                },
                Err(ConstructionError::TooSmall) => dimensions.x * dimensions.y < 2,
                Err(ConstructionError::TooLarge) => dimensions.x * dimensions.y > usize::MAX,
            },
    {
        GameState::with_seed(dimensions, fresh_seed())
    }

    /// Sets up a game as [`GameState::new`] does, but with a generator made
    /// from `seed`: two games made from the same seed and given the same
    /// input find their fruits on the same tiles.
    pub fn with_seed(dimensions: Vector, seed: u64) -> (made: Result<GameState, ConstructionError>)
        ensures
            match made {
                Ok(game) => {
                    &&& 2 <= dimensions.x * dimensions.y <= usize::MAX
                    &&& game.well_formed()
                    &&& game@ == Board::initial(dimensions, game@.fruit)
                },
                Err(ConstructionError::TooSmall) => dimensions.x * dimensions.y < 2,
                Err(ConstructionError::TooLarge) => dimensions.x * dimensions.y > usize::MAX,
            },
    {
        let total: usize = match dimensions.x.checked_mul(dimensions.y) {
            Some(total) => total,
            None => {
                return Err(ConstructionError::TooLarge);
            },
        };
        if total < 2 {
            return Err(ConstructionError::TooSmall);
        }
        assert(dimensions.x >= 1 && dimensions.y >= 1) by (nonlinear_arith)
            requires
                dimensions.x * dimensions.y >= 2,
        ;
        let head = Vector { x: dimensions.x / 2, y: dimensions.y / 2 };
        let mut tiles = empty_grid(dimensions);
        tiles[head.y][head.x].is_occupied = true;
        let mut game = GameState {
            head_position: head,
            tail_positions: VecDeque::new(),
            dimensions,
            tiles,
            fruit_position: head,
            movement_direction: Direction::Right,
            queued_direction: None,
            state: State::Running,
            ms_since_last_update: MILLISECONDS_PER_FRAME,
            generator: seeded_generator(seed),
        };
        proof {
            let other = if dimensions.x >= 2 {
                Vector { x: if head.x == 0 { 1 } else { 0 }, y: head.y }
            } else {
                Vector { x: head.x, y: if head.y == 0 { 1 } else { 0 } }
            };
            assert(dimensions.x >= 2 || dimensions.y >= 2) by (nonlinear_arith)
                requires
                    dimensions.x * dimensions.y >= 2,
            ;
            assert(game@.is_free(other));
            lemma_rank_below_count(game@, other);
        }
        // With two tiles or more a tile beside the head's is free, so a fruit is placed.
        match game.place_fruit() {
            Some(_) => Ok(game),
            None => Err(ConstructionError::TooSmall),
        }
    }

    /// Writes the game down as plain values.
    pub fn snapshot(&self) -> (snapshot: Snapshot)
        ensures
            snapshot@ == self@,
    {
        let mut tail: Vec<Vector> = Vec::new();
        let mut i: usize = 0;
        while i < self.tail_positions.len()
            invariant
                i <= self.tail_positions@.len(),
                tail@ == self.tail_positions@.take(i as int),
            decreases self.tail_positions@.len() - i,
        {
            tail.push(self.tail_positions[i]);
            i += 1;
        }
        assert(tail@ == self.tail_positions@);
        Snapshot {
            dimensions: self.dimensions,
            head_position: self.head_position,
            tail_positions: tail,
            fruit_position: self.fruit_position,
            movement_direction: self.movement_direction,
            queued_direction: self.queued_direction,
            state: self.state,
            ms_since_last_update: self.ms_since_last_update,
        }
    }

    /// Takes a game up again from a snapshot, with a generator made from
    /// `seed` for the fruits to come. Every valid game can be taken up, and
    /// nothing else: `None` tells that the snapshot is not a valid game.
    pub fn restore(snapshot: &Snapshot, seed: u64) -> (restored: Option<GameState>)
        ensures
            restored is Some <==> snapshot@.valid(),
            restored matches Some(game) ==> game.well_formed() && game@ == snapshot@,
    {
        let ghost board = snapshot@;
        let dimensions = snapshot.dimensions;
        let head = snapshot.head_position;
        let fruit = snapshot.fruit_position;
        match dimensions.x.checked_mul(dimensions.y) {
            Some(total) => if total < 2 {
                return None;
            },
            None => {
                return None;
            },
        }
        if !(head.x < dimensions.x && head.y < dimensions.y) {
            return None;
        }
        if !(fruit.x < dimensions.x && fruit.y < dimensions.y) {
            return None;
        }
        let mut tiles = empty_grid(dimensions);
        let mut tail: VecDeque<Vector> = VecDeque::new();
        let ghost nowhere = dimensions;
        let mut i: usize = 0;
        while i < snapshot.tail_positions.len()
            invariant
                board == snapshot@,
                dimensions == board.dimensions,
                nowhere == dimensions,
                i <= board.tail.len(),
                tail@ == board.tail.take(i as int),
                tiles_match(tiles, Board { head: nowhere, tail: tail@, fruit: nowhere, ..board }),
                forall|j: int| 0 <= j < i ==> board.in_bounds(#[trigger] board.tail[j]),
                tail@.no_duplicates(),
            decreases board.tail.len() - i,
        {
            let part = snapshot.tail_positions[i];
            if !(part.x < dimensions.x && part.y < dimensions.y) {
                return None;
            }
            if tiles[part.y][part.x].is_occupied {
                proof {
                    let j = choose|j: int| 0 <= j < tail@.len() && tail@[j] == part;
                    assert(board.tail[j] == board.tail[i as int]);
                }
                return None;
            }
            tiles[part.y][part.x].is_occupied = true;
            let ghost before = tail@;
            tail.push_back(part);
            proof {
                assert(tail@ == board.tail.take(i + 1));
                assert forall|p: Vector| tail@.contains(p) == (before.contains(p) || p == part) by {
                    lemma_push_contains(before, part, p);
                }
            }
            i += 1;
        }
        proof {
            assert(tail@ == board.tail);
        }
        if snapshot.state != State::Lost && tiles[head.y][head.x].is_occupied {
            return None;
        }
        tiles[head.y][head.x].is_occupied = true;
        if snapshot.state == State::Won {
            if fruit != head {
                return None;
            }
        } else if tiles[fruit.y][fruit.x].is_occupied {
            return None;
        }
        tiles[fruit.y][fruit.x].is_occupied = true;
        let game = GameState {
            head_position: head,
            tail_positions: tail,
            dimensions,
            tiles,
            fruit_position: fruit,
            movement_direction: snapshot.movement_direction,
            queued_direction: snapshot.queued_direction,
            state: snapshot.state,
            ms_since_last_update: snapshot.ms_since_last_update,
            generator: seeded_generator(seed),
        };
        if snapshot.state == State::Won && game.count_free() != 0 {
            return None;
        }
        Some(game)
    }

    /// The position of the snake's head.
    pub fn head_position(&self) -> (position: Vector)
        ensures
            position == self@.head,
    {
        self.head_position
    }

    /// The positions of the snake's tail parts, the newest first.
    pub fn tail_positions(&self) -> (positions: &VecDeque<Vector>)
        ensures
            positions@ == self@.tail,
    {
        &self.tail_positions
    }

    /// The position of the fruit.
    pub fn fruit_position(&self) -> (position: Vector)
        ensures
            position == self@.fruit,
    {
        self.fruit_position
    }

    /// The dimensions of the grid.
    pub fn dimensions(&self) -> (dimensions: Vector)
        ensures
            dimensions == self@.dimensions,
    {
        self.dimensions
    }

    /// The direction of movement of the snake.
    pub fn movement_direction(&self) -> (direction: Direction)
        ensures
            direction == self@.direction,
    {
        self.movement_direction
    }

    /// The direction that the next step takes up, if one was asked for.
    pub fn queued_direction(&self) -> (direction: Option<Direction>)
        ensures
            direction == self@.queued,
    {
        self.queued_direction
    }

    /// The current state of the game.
    pub fn state(&self) -> (state: State)
        ensures
            state == self@.status,
    {
        self.state
    }

    /// The time elapsed since the last update, in milliseconds.
    pub fn ms_since_last_update(&self) -> (elapsed: usize)
        ensures
            elapsed == self@.clock,
    {
        self.ms_since_last_update
    }

    /// The tile at `position`, or `None` if the grid has no such tile.
    pub fn tile(&self, position: Vector) -> (tile: Option<Tile>)
        requires
            self.well_formed(),
        ensures
            tile == if self@.in_bounds(position) {
                Some(Tile { position, is_occupied: self@.occupied(position) })
            } else {
                None
            },
    {
        if position.y < self.tiles.len() && position.x < self.tiles[position.y].len() {
            Some(self.tiles[position.y][position.x])
        } else {
            None
        }
    }

    /// Counts the tiles that are marked free.
    fn count_free(&self) -> (count: usize)
        requires
            self.grid_matches(self@),
            self@.dimensions.x * self@.dimensions.y <= usize::MAX,
        ensures
            count == self@.free_count(),
    {
        let ghost board = self@;
        let mut count: usize = 0;
        let mut y: usize = 0;
        while y < self.dimensions.y
            invariant
                self.grid_matches(board),
                board == self@,
                board.dimensions == self.dimensions,
                board.dimensions.x * board.dimensions.y <= usize::MAX,
                y <= self.dimensions.y,
                count == board.free_in_rows(y),
            decreases self.dimensions.y - y,
        {
            let mut x: usize = 0;
            while x < self.dimensions.x
                invariant
                    self.grid_matches(board),
                    board == self@,
                    board.dimensions == self.dimensions,
                    board.dimensions.x * board.dimensions.y <= usize::MAX,
                    y < self.dimensions.y,
                    x <= self.dimensions.x,
                    count == board.free_in_rows(y) + board.free_in_row(y, x),
                decreases self.dimensions.x - x,
            {
                proof {
                    lemma_free_in_rows_bound(board, y);
                    lemma_free_in_row_bound(board, y, x);
                    lemma_tile_number(board.dimensions, x, y);
                }
                if !self.tiles[y][x].is_occupied {
                    count += 1;
                }
                x += 1;
            }
            y += 1;
        }
        count
    }

    /// The number of tiles with nothing on them.
    pub fn free_tiles(&self) -> (count: usize)
        requires
            self.well_formed(),
        ensures
            count == self@.free_count(),
    {
        self.count_free()
    }

    /// Finds the free tile that has `index` free tiles before it, reading the
    /// grid row by row.
    fn nth_free(&self, index: usize) -> (position: Vector)
        requires
            self.grid_matches(self@),
            self@.dimensions.x * self@.dimensions.y <= usize::MAX,
            index < self@.free_count(),
        ensures
            self@.is_free(position),
            self@.rank(position) == index,
    {
        let ghost board = self@;
        let mut seen: usize = 0;
        let mut y: usize = 0;
        while y < self.dimensions.y
            invariant
                self.grid_matches(board),
                board == self@,
                board.dimensions == self.dimensions,
                board.dimensions.x * board.dimensions.y <= usize::MAX,
                y <= self.dimensions.y,
                seen == board.free_in_rows(y),
                seen <= index,
            decreases self.dimensions.y - y,
        {
            let mut x: usize = 0;
            while x < self.dimensions.x
                invariant
                    self.grid_matches(board),
                    board == self@,
                    board.dimensions == self.dimensions,
                    board.dimensions.x * board.dimensions.y <= usize::MAX,
                    y < self.dimensions.y,
                    x <= self.dimensions.x,
                    seen == board.free_in_rows(y) + board.free_in_row(y, x),
                    seen <= index,
                decreases self.dimensions.x - x,
            {
                if !self.tiles[y][x].is_occupied {
                    if seen == index {
                        return Vector { x, y };
                    }
                    seen += 1;
                }
                x += 1;
            }
            y += 1;
        }
        proof {
            assert(seen == board.free_count());
        }
        vstd::pervasive::unreached()
    }

    /// Whether a tail part is at `position`.
    fn tail_contains(&self, position: Vector) -> (found: bool)
        ensures
            found == self@.tail.contains(position),
    {
        let mut i: usize = 0;
        while i < self.tail_positions.len()
            invariant
                i <= self.tail_positions@.len(),
                forall|j: int| 0 <= j < i ==> self.tail_positions@[j] != position,
            decreases self.tail_positions@.len() - i,
        {
            if self.tail_positions[i] == position {
                return true;
            }
            i += 1;
        }
        false
    }

    /// The tile that the head enters with the next step, or `None` if the
    /// step leads off the grid.
    fn next_head(&self) -> (target: Option<Vector>)
        requires
            self@.in_bounds(self@.head),
        ensures
            target == self@.target(),
    {
        let Vector { x, y } = self.head_position;
        let heading = match self.queued_direction {
            Some(direction) => direction,
            None => self.movement_direction,
        };
        match heading {
            Direction::Up => if y == 0 {
                None
            } else {
                Some(Vector { x, y: y - 1 })
            },
            Direction::Down => if y + 1 < self.dimensions.y {
                Some(Vector { x, y: y + 1 })
            } else {
                None
            },
            Direction::Right => if x + 1 < self.dimensions.x {
                Some(Vector { x: x + 1, y })
            } else {
                None
            },
            Direction::Left => if x == 0 {
                None
            } else {
                Some(Vector { x: x - 1, y })
            },
        }
    }

    /// Makes the first half of a step: takes up the queued direction and
    /// moves the head, unless that leads off the grid. The tile that the head
    /// left becomes the newest tail part. The game is lost if the head left
    /// the grid or ran into the tail.
    fn move_head(&mut self) -> (outcome: Outcome)
        requires
            old(self).well_formed(),
            old(self)@.status == State::Running,
        ensures
            final(self).grid_matches(final(self)@),
            match old(self)@.target() {
                None => {
                    &&& outcome == Outcome::Crashed
                    &&& final(self)@ == (Board { status: State::Lost, ..old(self)@.turned() })
                },
                Some(t) => {
                    let moved = old(self)@.entered(t);
                    if moved.tail.contains(t) {
                        &&& outcome == Outcome::Crashed
                        &&& final(self)@ == (Board { status: State::Lost, ..moved })
                    } else {
                        &&& final(self)@ == moved
                        &&& outcome == if t == old(self)@.fruit {
                            Outcome::Ate
                        } else {
                            Outcome::Advanced
                        }
                    }
                },
            },
    {
        let target = self.next_head();
        if let Some(direction) = self.queued_direction {
            self.movement_direction = direction;
            self.queued_direction = None;
        }
        match target {
            None => {
                self.state = State::Lost;
                Outcome::Crashed
            },
            Some(position) => {
                let previous = self.head_position;
                self.head_position = position;
                self.tiles[position.y][position.x].is_occupied = true;
                self.tail_positions.push_front(previous);
                proof {
                    assert forall|p: Vector|
                        self@.occupied(p) == (p == position || old(self)@.occupied(p)) by {
                        lemma_push_front_contains(old(self)@.tail, previous, p);
                    }
                }
                if self.tail_contains(position) {
                    self.state = State::Lost;
                    Outcome::Crashed
                } else if position == self.fruit_position {
                    Outcome::Ate
                } else {
                    Outcome::Advanced
                }
            },
        }
    }

    /// Removes the oldest tail part and frees its tile.
    fn drop_oldest(&mut self)
        requires
            old(self).grid_matches(old(self)@),
            old(self)@.tail.len() > 0,
            old(self)@.tail.no_duplicates(),
            old(self)@.in_bounds(old(self)@.tail.last()),
            old(self)@.tail.last() != old(self)@.head,
            old(self)@.tail.last() != old(self)@.fruit,
        ensures
            final(self).grid_matches(final(self)@),
            final(self)@ == (Board { tail: old(self)@.tail.drop_last(), ..old(self)@ }),
    {
        if let Some(oldest) = self.tail_positions.pop_back() {
            self.tiles[oldest.y][oldest.x].is_occupied = false;
            proof {
                assert forall|p: Vector|
                    self@.occupied(p) == (p != oldest && old(self)@.occupied(p)) by {
                    lemma_drop_last_contains(old(self)@.tail, p);
                }
            }
        }
    }

    /// Puts the fruit on the free tile that has `index` free tiles before it,
    /// reading the grid row by row. The tile that the fruit leaves stays
    /// covered by the snake.
    fn place_fruit_at(&mut self, index: usize) -> (position: Vector)
        requires
            old(self).grid_matches(old(self)@),
            old(self)@.dimensions.x * old(self)@.dimensions.y <= usize::MAX,
            old(self)@.on_snake(old(self)@.fruit),
            index < old(self)@.free_count(),
        ensures
            final(self).grid_matches(final(self)@),
            final(self)@ == (Board { fruit: position, ..old(self)@ }),
            old(self)@.is_free(position),
            old(self)@.rank(position) == index,
    {
        let position = self.nth_free(index);
        self.tiles[position.y][position.x].is_occupied = true;
        self.fruit_position = position;
        position
    }

    /// Puts the fruit on a free tile drawn at random, each with the same
    /// chance; `None` if no tile is free, and the fruit then stays where it
    /// is.
    fn place_fruit(&mut self) -> (placed: Option<Vector>)
        requires
            old(self).grid_matches(old(self)@),
            old(self)@.dimensions.x * old(self)@.dimensions.y <= usize::MAX,
            old(self)@.on_snake(old(self)@.fruit),
        ensures
            final(self).grid_matches(final(self)@),
            match placed {
                Some(position) => {
                    &&& old(self)@.free_count() > 0
                    &&& old(self)@.is_free(position)
                    &&& final(self)@ == (Board { fruit: position, ..old(self)@ })
                },
                None => {
                    &&& old(self)@.free_count() == 0
                    &&& final(self)@ == old(self)@
                },
            },
    {
        let free: usize = self.count_free();
        if free == 0 {
            return None;
        }
        let index: usize = random_below(&mut self.generator, free);
        Some(self.place_fruit_at(index))
    }

    /// Adds `elapsed_ms` to the clock of a game that is not lost and, if a
    /// full tick has built up, takes one tick off. Tells whether a step is
    /// due: a tick was taken off and the game is running.
    fn wind_clock(&mut self, elapsed_ms: usize) -> (due: bool)
        requires
            old(self).grid_matches(old(self)@),
            old(self)@.clock + elapsed_ms <= usize::MAX,
        ensures
            final(self).grid_matches(final(self)@),
            final(self)@ == old(self)@.wound(elapsed_ms as nat),
            due == (old(self)@.tick_due(elapsed_ms as nat) && old(self)@.status == State::Running),
    {
        if self.state == State::Lost {
            return false;
        }
        self.ms_since_last_update += elapsed_ms;
        if self.ms_since_last_update < MILLISECONDS_PER_FRAME {
            return false;
        }
        self.ms_since_last_update -= MILLISECONDS_PER_FRAME;
        self.state == State::Running
    }

    /// Lets `elapsed_ms` milliseconds pass. A lost game stays as it is.
    /// Otherwise the time is added to the clock; if a full tick has built up,
    /// one tick is taken off the clock and the snake makes one step, with a
    /// new fruit on a free tile drawn at random if it ate this one.
    pub fn advance_tick(&mut self, elapsed_ms: usize)
        requires
            old(self).well_formed(),
            old(self)@.status != State::Lost ==> old(self)@.clock + elapsed_ms <= usize::MAX,
        ensures
            final(self).well_formed(),
            final(self)@ == old(self)@.advance(elapsed_ms as nat, final(self)@.fruit),
            old(self)@.needs_fruit(elapsed_ms as nat) ==> old(self)@.is_free(final(self)@.fruit),
    {
        if self.state == State::Lost {
            return;
        }
        let ghost wound = self@.wound(elapsed_ms as nat);
        proof {
            lemma_wound_keeps_valid(self@, elapsed_ms as nat);
            lemma_clock_counts_the_same(self@, elapsed_ms as nat);
        }
        if self.wind_clock(elapsed_ms) {
            match self.move_head() {
                Outcome::Crashed => {},
                Outcome::Advanced => {
                    proof {
                        lemma_step_keeps_valid(wound, wound.fruit);
                    }
                    self.drop_oldest();
                },
                Outcome::Ate => {
                    proof {
                        lemma_eating_covers_the_same(wound);
                    }
                    if self.place_fruit().is_none() {
                        self.state = State::Won;
                    }
                },
            }
            proof {
                lemma_step_keeps_valid(wound, self@.fruit);
            }
        }
    }

    /// Whether a step is due once `elapsed_ms` more milliseconds have
    /// passed, and that step moves the head onto the fruit.
    fn eats_next(&self, elapsed_ms: usize) -> (eats: bool)
        requires
            self@.in_bounds(self@.head),
            self@.clock + elapsed_ms <= usize::MAX,
        ensures
            eats == (self@.status == State::Running && self@.tick_due(elapsed_ms as nat)
                && self@.target() == Some(self@.fruit)),
    {
        self.state == State::Running && self.ms_since_last_update + elapsed_ms
            >= MILLISECONDS_PER_FRAME && self.next_head() == Some(self.fruit_position)
    }

    /// Lets `elapsed_ms` milliseconds pass as [`GameState::advance_tick`]
    /// does, but with the draw given: if the snake eats the fruit and a tile
    /// is free, the next fruit goes on the free tile that has `draw` free
    /// tiles before it when the grid is read row by row, each row from left
    /// to right.
    ///
    /// Tells whether that was done. It is not, and the game stays as it is,
    /// if a fruit is needed and `draw` is not below the number of free
    /// tiles.
    pub fn advance_tick_with(&mut self, elapsed_ms: usize, draw: usize) -> (applied: bool)
        requires
            old(self).well_formed(),
            old(self)@.status != State::Lost ==> old(self)@.clock + elapsed_ms <= usize::MAX,
        ensures
            final(self).well_formed(),
            applied == old(self)@.accepts_draw(elapsed_ms as nat, draw as nat),
            final(self)@ == if applied {
                old(self)@.advance_with(elapsed_ms as nat, draw as nat)
            } else {
                old(self)@
            },
    {
        if self.state == State::Lost {
            return true;
        }
        if self.eats_next(elapsed_ms) {
            let free: usize = self.count_free();
            if free > 0 && draw >= free {
                return false;
            }
        }
        let ghost start = self@;
        let ghost wound = self@.wound(elapsed_ms as nat);
        proof {
            lemma_wound_keeps_valid(start, elapsed_ms as nat);
            lemma_clock_counts_the_same(start, elapsed_ms as nat);
        }
        if self.wind_clock(elapsed_ms) {
            match self.move_head() {
                Outcome::Crashed => {},
                Outcome::Advanced => {
                    proof {
                        lemma_step_keeps_valid(wound, wound.fruit);
                    }
                    self.drop_oldest();
                },
                Outcome::Ate => {
                    proof {
                        lemma_eating_covers_the_same(wound);
                    }
                    if self.count_free() == 0 {
                        self.state = State::Won;
                    } else {
                        let position = self.place_fruit_at(draw);
                        proof {
                            lemma_nth_free_is(start, draw as nat, position);
                        }
                    }
                },
            }
            proof {
                lemma_step_keeps_valid(wound, self@.fruit);
            }
        }
        proof {
            if !start.needs_fruit(elapsed_ms as nat) {
                lemma_placement_unused(
                    start,
                    elapsed_ms as nat,
                    self@.fruit,
                    start.nth_free(draw as nat),
                );
            }
        }
        true
    }

    /// Takes a direction from the player. It is queued for the next step,
    /// replacing an earlier one, unless the game is over or the direction is
    /// the reverse of the one in which the snake moves.
    pub fn handle_direction_input(&mut self, direction: Direction)
        requires
            old(self).well_formed(),
        ensures
            final(self).well_formed(),
            final(self)@ == old(self)@.turn(direction),
    {
        if self.state == State::Running && direction != self.movement_direction.opposite() {
            self.queued_direction = Some(direction);
        }
    }
}

} // verus!
