use vstd::prelude::*;
use crate::board::{elapsed_total, Board, Input};
use crate::constants::MILLISECONDS_PER_FRAME;
use crate::counting::{
    lemma_free_in_row_same, lemma_free_in_rows_same, lemma_free_tiles_are_the_rest,
    lemma_nth_free_exists,
};
use crate::game::GameState;
use crate::sequences::{
    lemma_drop_last_contains, lemma_push_front_contains, lemma_push_front_no_duplicates,
};
use crate::snapshot::Snapshot;
use crate::structs::{Direction, State, Vector};

verus! {

/// When the head moves onto the fruit, the tiles that the snake and the fruit
/// cover stay the same: the head's old tile is now under the tail, and the
/// fruit's tile under the head.
pub proof fn lemma_eating_covers_the_same(board: Board)
    requires
        board.target() == Some(board.fruit),
    ensures
        forall|p: Vector| board.entered(board.fruit).occupied(p) == board.occupied(p),
        forall|p: Vector| board.entered(board.fruit).is_free(p) == board.is_free(p),
        board.entered(board.fruit).free_count() == board.free_count(),
        forall|p: Vector| board.entered(board.fruit).rank(p) == board.rank(p),
{
    let moved = board.entered(board.fruit);
    assert forall|p: Vector| moved.occupied(p) == board.occupied(p) by {
        lemma_push_front_contains(board.tail, board.head, p);
    }
    lemma_free_in_rows_same(moved, board, board.dimensions.y);
    assert forall|p: Vector| moved.rank(p) == board.rank(p) by {
        lemma_free_in_rows_same(moved, board, p.y);
        lemma_free_in_row_same(moved, board, p.y, p.x);
    }
}

/// The clock has no say in which tiles are free, nor in how they are
/// counted.
pub proof fn lemma_clock_counts_the_same(board: Board, elapsed: nat)
    ensures
        forall|p: Vector| board.wound(elapsed).is_free(p) == board.is_free(p),
        board.wound(elapsed).free_count() == board.free_count(),
        forall|p: Vector| board.wound(elapsed).rank(p) == board.rank(p),
{
    let wound = board.wound(elapsed);
    lemma_free_in_rows_same(wound, board, board.dimensions.y);
    assert forall|p: Vector| wound.rank(p) == board.rank(p) by {
        lemma_free_in_rows_same(wound, board, p.y);
        lemma_free_in_row_same(wound, board, p.y, p.x);
    }
}

/// Time on the clock leaves a valid game valid.
pub proof fn lemma_wound_keeps_valid(board: Board, elapsed: nat)
    requires
        board.valid(),
    ensures
        board.wound(elapsed).valid(),
{
    lemma_free_in_rows_same(board.wound(elapsed), board, board.dimensions.y);
}

/// The tile chosen for a new fruit matters only to a step that needs one.
pub proof fn lemma_placement_unused(board: Board, elapsed: nat, p: Vector, q: Vector)
    requires
        board.valid(),
        !board.needs_fruit(elapsed),
    ensures
        board.advance(elapsed, p) == board.advance(elapsed, q),
{
    let wound = board.wound(elapsed);
    if board.tick_due(elapsed) && wound.status == State::Running {
        if wound.target() == Some(wound.fruit) {
            lemma_eating_covers_the_same(wound);
            lemma_free_in_rows_same(wound, board, board.dimensions.y);
        }
    }
}

/// A step of a valid game gives a valid game, provided that the tile chosen
/// for a new fruit is a free one.
pub proof fn lemma_step_keeps_valid(board: Board, placed: Vector)
    requires
        board.valid(),
        board.step_needs_fruit() ==> board.is_free(placed),
    ensures
        board.step(placed).valid(),
{
    if board.status == State::Running {
        match board.target() {
            None => {},
            Some(t) => {
                let moved = board.entered(t);
                let next = board.step(placed);
                assert(board.in_bounds(t));
                assert forall|i: int| 0 <= i < moved.tail.len() implies board.in_bounds(
                    #[trigger] moved.tail[i],
                ) by {
                    if i > 0 {
                        assert(moved.tail[i] == board.tail[i - 1]);
                    }
                }
                lemma_push_front_no_duplicates(board.tail, board.head);
                lemma_push_front_contains(board.tail, board.head, t);
                lemma_push_front_contains(board.tail, board.head, board.fruit);
                if moved.tail.contains(t) {
                } else if t == board.fruit {
                    lemma_eating_covers_the_same(board);
                    if moved.free_count() == 0 {
                        lemma_free_in_rows_same(next, moved, board.dimensions.y);
                    } else {
                        lemma_push_front_contains(board.tail, board.head, placed);
                    }
                } else {
                    lemma_drop_last_contains(moved.tail, t);
                    lemma_drop_last_contains(moved.tail, board.fruit);
                    assert forall|i: int| 0 <= i < next.tail.len() implies board.in_bounds(
                        #[trigger] next.tail[i],
                    ) by {
                        assert(next.tail[i] == moved.tail[i]);
                    }
                }
            },
        }
    }
}

/// A turn leaves a valid game valid.
pub proof fn lemma_turn_keeps_valid(board: Board, direction: Direction)
    requires
        board.valid(),
    ensures
        board.turn(direction).valid(),
{
    lemma_free_in_rows_same(board.turn(direction), board, board.dimensions.y);
}

/// The passing of time leaves a valid game valid, provided that the tile
/// chosen for a new fruit, where one is needed, is a free one.
pub proof fn lemma_advance_keeps_valid(board: Board, elapsed: nat, placed: Vector)
    requires
        board.valid(),
        board.needs_fruit(elapsed) ==> board.is_free(placed),
    ensures
        board.advance(elapsed, placed).valid(),
{
    lemma_wound_keeps_valid(board, elapsed);
    lemma_clock_counts_the_same(board, elapsed);
    if board.tick_due(elapsed) {
        lemma_step_keeps_valid(board.wound(elapsed), placed);
    }
}

/// The passing of time leaves a valid game valid where the tile of a new
/// fruit is picked by a draw below the number of free tiles.
pub proof fn lemma_advance_with_keeps_valid(board: Board, elapsed: nat, draw: nat)
    requires
        board.valid(),
        board.accepts_draw(elapsed, draw),
    ensures
        board.advance_with(elapsed, draw).valid(),
{
    if board.needs_fruit(elapsed) {
        lemma_nth_free_exists(board, draw);
    }
    lemma_advance_keeps_valid(board, elapsed, board.nth_free(draw));
}

/// A game starts valid on every grid of two tiles or more, wherever the
/// fruit lies but under the head.
pub proof fn lemma_initial_is_valid(dimensions: Vector, fruit: Vector)
    requires
        2 <= dimensions.x * dimensions.y <= usize::MAX,
        fruit.x < dimensions.x,
        fruit.y < dimensions.y,
        fruit != (Vector { x: dimensions.x / 2, y: dimensions.y / 2 }),
    ensures
        Board::initial(dimensions, fruit).valid(),
{
    assert(dimensions.x >= 1 && dimensions.y >= 1) by (nonlinear_arith)
        requires
            dimensions.x * dimensions.y >= 2,
    ;
}

/// Every game that can be reached is valid: whatever the player asks for and
/// however time passes, a valid game stays valid, as long as each new fruit
/// goes to a free tile.
pub proof fn lemma_run_keeps_valid(board: Board, inputs: Seq<Input>)
    requires
        board.valid(),
        board.allows_all(inputs),
    ensures
        board.run(inputs).valid(),
    decreases inputs.len(),
{
    if inputs.len() > 0 {
        lemma_run_keeps_valid(board, inputs.drop_last());
        let before = board.run(inputs.drop_last());
        match inputs.last() {
            Input::Turn { direction } => lemma_turn_keeps_valid(before, direction),
            Input::Frame { elapsed, placed } => lemma_advance_keeps_valid(before, elapsed, placed),
        }
    }
}

/// While a valid game is running, the head and the fruit are on the grid, no
/// two parts of the snake, head and tail, share a tile, and the fruit is not
/// under any of them.
pub proof fn lemma_running_game_is_sound(board: Board)
    requires
        board.valid(),
        board.status == State::Running,
    ensures
        board.in_bounds(board.head),
        board.in_bounds(board.fruit),
        forall|i: int| 0 <= i < board.snake().len() ==> board.in_bounds(#[trigger] board.snake()[i]),
        board.snake().no_duplicates(),
        !board.snake().contains(board.fruit),
{
    lemma_push_front_no_duplicates(board.tail, board.head);
    lemma_push_front_contains(board.tail, board.head, board.fruit);
    assert forall|i: int| 0 <= i < board.snake().len() implies board.in_bounds(
        #[trigger] board.snake()[i],
    ) by {
        if i > 0 {
            assert(board.snake()[i] == board.tail[i - 1]);
        }
    }
}

/// While a valid game is running, the free tiles are the tiles that the
/// snake and the fruit leave.
pub proof fn lemma_running_game_leaves_the_rest_free(board: Board)
    requires
        board.valid(),
        board.status == State::Running,
    ensures
        board.free_count() + board.snake().len() + 1 == board.dimensions.x * board.dimensions.y,
{
    lemma_free_tiles_are_the_rest(board);
}

/// A valid game that is won has the snake on every tile of the grid.
pub proof fn lemma_won_game_fills_the_grid(board: Board)
    requires
        board.valid(),
        board.status == State::Won,
    ensures
        board.snake().len() == board.dimensions.x * board.dimensions.y,
{
    lemma_free_tiles_are_the_rest(board);
}

/// A game that is over stays over: nothing moves any more and the status
/// stays. A lost game does not even count time.
pub proof fn lemma_over_is_final(board: Board, input: Input)
    requires
        board.status != State::Running,
    ensures
        board.apply(input) == (Board { clock: board.apply(input).clock, ..board }),
        board.status == State::Lost ==> board.apply(input) == board,
{
}

/// The tail never gets shorter.
pub proof fn lemma_tail_never_shrinks(board: Board, input: Input)
    ensures
        board.apply(input).tail.len() >= board.tail.len(),
{
}

/// Whether a step is due once `elapsed` more milliseconds have passed, and
/// with that step the head enters the tile of the fruit.
pub open spec fn enters_fruit(board: Board, elapsed: nat) -> bool {
    &&& board.status == State::Running
    &&& board.tick_due(elapsed)
    &&& board.target() == Some(board.fruit)
}

/// Whether a step is due once `elapsed` more milliseconds have passed, and
/// with that step the head runs into the tail.
pub open spec fn hits_tail(board: Board, elapsed: nat) -> bool {
    &&& board.status == State::Running
    &&& board.tick_due(elapsed)
    &&& board.target() matches Some(t)
    &&& board.tail.contains(t)
}

/// The tail grows by one part when the head enters the tile of the fruit,
/// and keeps its length otherwise, except in the step that runs the head
/// into the tail: that step loses the game before the oldest part is
/// dropped.
pub proof fn lemma_tail_grows_by_eating(board: Board, elapsed: nat, placed: Vector)
    requires
        !hits_tail(board, elapsed),
    ensures
        board.advance(elapsed, placed).tail.len() == board.tail.len() + if enters_fruit(
            board,
            elapsed,
        ) {
            1nat
        } else {
            0nat
        },
{
    let wound = board.wound(elapsed);
    if board.tick_due(elapsed) && board.status == State::Running {
        match wound.target() {
            None => {},
            Some(t) => {
                lemma_push_front_contains(board.tail, board.head, t);
            },
        }
    }
}

/// A request for the reverse of the direction in which the snake moves
/// changes nothing: neither that direction nor the queued one.
pub proof fn lemma_reverse_is_ignored(board: Board)
    ensures
        board.turn(board.direction.opposite()) == board,
{
}

/// Frames that together stay below one tick only wind the clock: the game
/// is as it was, with their time added to the clock (a lost game as it was
/// altogether).
pub proof fn lemma_short_frames_only_wind_clock(board: Board, inputs: Seq<Input>)
    requires
        forall|i: int| 0 <= i < inputs.len() ==> #[trigger] inputs[i] is Frame,
        board.clock + elapsed_total(inputs) < MILLISECONDS_PER_FRAME,
    ensures
        board.run(inputs) == if board.status == State::Lost {
            board
        } else {
            Board { clock: board.clock + elapsed_total(inputs), ..board }
        },
    decreases inputs.len(),
{
    if inputs.len() > 0 {
        let earlier = inputs.drop_last();
        assert forall|i: int| 0 <= i < earlier.len() implies #[trigger] earlier[i] is Frame by {
            assert(earlier[i] == inputs[i]);
        }
        lemma_short_frames_only_wind_clock(board, earlier);
    }
}

/// The frame that fills up a tick makes exactly one step, however much time
/// has built up: one tick is taken off the clock, the rest stays on it.
pub proof fn lemma_full_tick_makes_one_step(board: Board, elapsed: nat, placed: Vector)
    requires
        board.status != State::Lost,
        board.clock + elapsed >= MILLISECONDS_PER_FRAME,
    ensures
        board.advance(elapsed, placed) == (Board {
            clock: (board.clock + elapsed - MILLISECONDS_PER_FRAME) as nat,
            ..board
        }).step(placed),
        board.advance(elapsed, placed).clock == board.clock + elapsed - MILLISECONDS_PER_FRAME,
{
}

/// How a game goes on depends on nothing but its board: a game taken up
/// again from what was written down of another goes through the same boards
/// as that one, given the same input and the same tiles for the fruits.
pub proof fn lemma_resumed_game_goes_the_same_way(
    game: GameState,
    snapshot: Snapshot,
    resumed: GameState,
    inputs: Seq<Input>,
)
    requires
        game.well_formed(),
        snapshot@ == game@,
        resumed@ == snapshot@,
    ensures
        snapshot@.valid(),
        resumed@.run(inputs) == game@.run(inputs),
{
}


} // verus!
