use vstd::prelude::*;
use crate::constants::MILLISECONDS_PER_FRAME;
use crate::structs::{Direction, State, Vector};

verus! {

/// The mathematical model of a game: everything that decides how the game
/// goes on.
pub struct Board {
    /// The width (`x`) and height (`y`) of the grid, in tiles.
    pub dimensions: Vector,
    /// The position of the snake's head.
    pub head: Vector,
    /// The positions of the snake's tail segments, the newest first.
    pub tail: Seq<Vector>,
    /// The position of the fruit.
    pub fruit: Vector,
    /// The direction in which the snake moves.
    pub direction: Direction,
    /// The direction requested since the last step, if any.
    pub queued: Option<Direction>,
    /// Whether the game is in progress, won or lost.
    pub status: State,
    /// The milliseconds that have passed and were not yet consumed by a step.
    pub clock: nat,
}

/// What can happen to a game.
pub enum Input {
    /// The player asks for a direction.
    Turn { direction: Direction },
    /// `elapsed` milliseconds pass; should the snake eat the fruit, the next
    /// one goes to `placed`.
    Frame { elapsed: nat, placed: Vector },
}

/// The milliseconds that pass in all the frames among `inputs`.
pub open spec fn elapsed_total(inputs: Seq<Input>) -> nat
    decreases inputs.len(),
{
    if inputs.len() == 0 {
        0
    } else {
        elapsed_total(inputs.drop_last()) + match inputs.last() {
            Input::Turn { direction } => 0nat,
            Input::Frame { elapsed, placed } => elapsed,
        }
    }
}

impl Board {
    /// Whether `p` is a tile of the grid.
    pub open spec fn in_bounds(self, p: Vector) -> bool {
        p.x < self.dimensions.x && p.y < self.dimensions.y
    }

    /// The tiles of the snake from head to tail end.
    pub open spec fn snake(self) -> Seq<Vector> {
        seq![self.head] + self.tail
    }

    /// Whether the snake's head or one of its tail segments is at `p`.
    pub open spec fn on_snake(self, p: Vector) -> bool {
        p == self.head || self.tail.contains(p)
    }

    /// Whether the snake or the fruit is at `p`.
    pub open spec fn occupied(self, p: Vector) -> bool {
        self.on_snake(p) || p == self.fruit
    }

    /// Whether `p` is a tile of the grid with nothing on it.
    pub open spec fn is_free(self, p: Vector) -> bool {
        self.in_bounds(p) && !self.occupied(p)
    }

    /// The number of free tiles among the first `n` tiles of row `y`.
    pub open spec fn free_in_row(self, y: usize, n: usize) -> nat
        decreases n,
    {
        if n == 0 {
            0
        } else {
            let x = (n - 1) as usize;
            self.free_in_row(y, x) + if self.is_free(Vector { x, y }) { 1nat } else { 0nat }
        }
    }

    /// The number of free tiles in the first `m` rows.
    pub open spec fn free_in_rows(self, m: usize) -> nat
        decreases m,
    {
        if m == 0 {
            0
        } else {
            let y = (m - 1) as usize;
            self.free_in_rows(y) + self.free_in_row(y, self.dimensions.x)
        }
    }

    /// The number of free tiles on the grid.
    pub open spec fn free_count(self) -> nat {
        self.free_in_rows(self.dimensions.y)
    }

    /// The number of free tiles that come before `p` when the grid is read
    /// row by row, each row from left to right.
    pub open spec fn rank(self, p: Vector) -> nat {
        self.free_in_rows(p.y) + self.free_in_row(p.y, p.x)
    }

    /// What holds of every game: the grid has room for a head and a fruit, the
    /// snake and the fruit are on the grid, no two tail segments share a tile,
    /// and
    /// - unless the game is lost, the head is on no tail segment;
    /// - unless the game is won, the fruit is not under the snake;
    /// - once the game is won, the head is where the last fruit was and no
    ///   tile is free.
    pub open spec fn valid(self) -> bool {
        &&& 2 <= self.dimensions.x * self.dimensions.y <= usize::MAX
        &&& self.in_bounds(self.head)
        &&& self.in_bounds(self.fruit)
        &&& forall|i: int| 0 <= i < self.tail.len() ==> self.in_bounds(#[trigger] self.tail[i])
        &&& self.tail.no_duplicates()
        &&& self.status != State::Lost ==> !self.tail.contains(self.head)
        &&& self.status != State::Won ==> !self.on_snake(self.fruit)
        &&& self.status == State::Won ==> self.fruit == self.head && self.free_count() == 0
    }

    /// The game as it starts on a grid of the given dimensions, with the
    /// fruit at `fruit`: the head in the centre, no tail, moving right, and a
    /// full tick on the clock, so that the first step is due at once.
    pub open spec fn initial(dimensions: Vector, fruit: Vector) -> Board {
        Board {
            dimensions,
            head: Vector { x: dimensions.x / 2, y: dimensions.y / 2 },
            tail: Seq::empty(),
            fruit,
            direction: Direction::Right,
            queued: None,
            status: State::Running,
            clock: MILLISECONDS_PER_FRAME as nat,
        }
    }

    /// The game after the player asked for `direction`: the request is queued
    /// unless the game is over or the request is the reverse of the direction
    /// in which the snake moves.
    pub open spec fn turn(self, direction: Direction) -> Board {
        if self.status == State::Running && direction != self.direction.opposite() {
            Board { queued: Some(direction), ..self }
        } else {
            self
        }
    }

    /// The direction of the next step: the queued one if there is one.
    pub open spec fn heading(self) -> Direction {
        match self.queued {
            Some(direction) => direction,
            None => self.direction,
        }
    }

    /// The tile that the head enters with the next step; `None` if the step
    /// leads off the grid.
    pub open spec fn target(self) -> Option<Vector> {
        let Vector { x, y } = self.head;
        match self.heading() {
            Direction::Up => if y == 0 {
                None
            } else {
                Some(Vector { x, y: (y - 1) as usize })
            },
            Direction::Down => if y + 1 < self.dimensions.y {
                Some(Vector { x, y: (y + 1) as usize })
            } else {
                None
            },
            Direction::Right => if x + 1 < self.dimensions.x {
                Some(Vector { x: (x + 1) as usize, y })
            } else {
                None
            },
            Direction::Left => if x == 0 {
                None
            } else {
                Some(Vector { x: (x - 1) as usize, y })
            },
        }
    }

    /// The game with the queued direction taken up.
    pub open spec fn turned(self) -> Board {
        Board { direction: self.heading(), queued: None, ..self }
    }

    /// The game with the queued direction taken up and the head moved to
    /// `t`, the tile it left having become the newest tail segment.
    pub open spec fn entered(self, t: Vector) -> Board {
        Board { head: t, tail: seq![self.head] + self.tail, ..self.turned() }
    }

    /// The game after one step, where `placed` is the tile chosen for the next
    /// fruit should the snake eat this one.
    ///
    /// A game that is over stays as it is. Otherwise the queued direction is
    /// taken up. A step off the grid loses the game and moves nothing. Else
    /// the head moves, and its old tile becomes the newest tail segment. If
    /// the head is now on a tail segment, the game is lost. If it is on the
    /// fruit, the snake keeps its new length; the next fruit goes to `placed`,
    /// or the game is won if no tile is free. Otherwise the oldest tail
    /// segment is dropped.
    pub open spec fn step(self, placed: Vector) -> Board {
        if self.status != State::Running {
            self
        } else {
            match self.target() {
                None => Board { status: State::Lost, ..self.turned() },
                Some(t) => {
                    let moved = self.entered(t);
                    if moved.tail.contains(t) {
                        Board { status: State::Lost, ..moved }
                    } else if t == self.fruit {
                        if moved.free_count() == 0 {
                            Board { status: State::Won, ..moved }
                        } else {
                            Board { fruit: placed, ..moved }
                        }
                    } else {
                        Board { tail: moved.tail.drop_last(), ..moved }
                    }
                },
            }
        }
    }

    /// Whether a step is due once `elapsed` more milliseconds have passed.
    pub open spec fn tick_due(self, elapsed: nat) -> bool {
        self.status != State::Lost && self.clock + elapsed >= MILLISECONDS_PER_FRAME
    }

    /// The game with `elapsed` more milliseconds on its clock, less one tick
    /// if a full tick has built up. The clock of a lost game stands still.
    pub open spec fn wound(self, elapsed: nat) -> Board {
        if self.status == State::Lost {
            self
        } else if self.clock + elapsed < MILLISECONDS_PER_FRAME {
            Board { clock: self.clock + elapsed, ..self }
        } else {
            Board { clock: (self.clock + elapsed - MILLISECONDS_PER_FRAME) as nat, ..self }
        }
    }

    /// The game after `elapsed` more milliseconds have passed.
    ///
    /// A lost game stays as it is. Otherwise the time is added to the clock;
    /// if a full tick has built up, one tick is taken off the clock and one
    /// step is made, however much time is left on the clock. The clock of a
    /// won game goes on, but its steps change nothing.
    pub open spec fn advance(self, elapsed: nat, placed: Vector) -> Board {
        if self.tick_due(elapsed) {
            self.wound(elapsed).step(placed)
        } else {
            self.wound(elapsed)
        }
    }

    /// Whether the next step eats the fruit and needs a tile for the next
    /// one.
    pub open spec fn step_needs_fruit(self) -> bool {
        &&& self.status == State::Running
        &&& self.target() == Some(self.fruit)
        &&& self.free_count() > 0
    }

    /// Whether a step is due once `elapsed` more milliseconds have passed,
    /// and that step eats the fruit and needs a tile for the next one.
    pub open spec fn needs_fruit(self, elapsed: nat) -> bool {
        self.tick_due(elapsed) && self.step_needs_fruit()
    }

    /// The game after `input`.
    pub open spec fn apply(self, input: Input) -> Board {
        match input {
            Input::Turn { direction } => self.turn(direction),
            Input::Frame { elapsed, placed } => self.advance(elapsed, placed),
        }
    }

    /// Whether `input` can come next: a frame that needs a tile for a new
    /// fruit names a free one.
    pub open spec fn allows(self, input: Input) -> bool {
        match input {
            Input::Turn { direction } => true,
            Input::Frame { elapsed, placed } => self.needs_fruit(elapsed) ==> self.is_free(placed),
        }
    }

    /// The game after all of `inputs`, the first of them first.
    pub open spec fn run(self, inputs: Seq<Input>) -> Board
        decreases inputs.len(),
    {
        if inputs.len() == 0 {
            self
        } else {
            self.run(inputs.drop_last()).apply(inputs.last())
        }
    }

    /// Whether each of `inputs` can come when its turn has come.
    pub open spec fn allows_all(self, inputs: Seq<Input>) -> bool
        decreases inputs.len(),
    {
        inputs.len() > 0 ==> {
            &&& self.allows_all(inputs.drop_last())
            &&& self.run(inputs.drop_last()).allows(inputs.last())
        }
    }

    /// The free tile that has `index` free tiles before it when the grid is
    /// read row by row. There is one if `index` is below the number of free
    /// tiles, and never more than one.
    pub open spec fn nth_free(self, index: nat) -> Vector {
        choose|p: Vector| self.is_free(p) && self.rank(p) == index
    }

    /// Whether `draw` can pick the tile of the next fruit, should the step
    /// that `elapsed` more milliseconds bring about need one.
    pub open spec fn accepts_draw(self, elapsed: nat, draw: nat) -> bool {
        self.needs_fruit(elapsed) ==> draw < self.free_count()
    }

    /// The game after `elapsed` more milliseconds have passed, where a new
    /// fruit, if one is needed, goes to the free tile number `draw`.
    pub open spec fn advance_with(self, elapsed: nat, draw: nat) -> Board {
        self.advance(elapsed, self.nth_free(draw))
    }
}

} // verus!
