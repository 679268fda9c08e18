use vstd::prelude::*;
use crate::board::Board;
use crate::sequences::lemma_drop_last_contains;
use crate::structs::Vector;

verus! {

/// No more tiles are free among the first `n` of a row than there are tiles.
pub proof fn lemma_free_in_row_bound(board: Board, y: usize, n: usize)
    ensures
        board.free_in_row(y, n) <= n,
    decreases n,
{
    if n > 0 {
        lemma_free_in_row_bound(board, y, (n - 1) as usize);
    }
}

/// No more tiles are free in the first `m` rows than those rows hold.
pub proof fn lemma_free_in_rows_bound(board: Board, m: usize)
    ensures
        board.free_in_rows(m) <= m * board.dimensions.x,
    decreases m,
{
    if m > 0 {
        let y = (m - 1) as usize;
        lemma_free_in_rows_bound(board, y);
        lemma_free_in_row_bound(board, y, board.dimensions.x);
        assert(y * board.dimensions.x + board.dimensions.x == m * board.dimensions.x)
            by (nonlinear_arith)
            requires
                y + 1 == m,
        ;
    }
}

/// Two boards with the same free tiles have equally many of them among the
/// first `n` tiles of a row.
pub proof fn lemma_free_in_row_same(a: Board, b: Board, y: usize, n: usize)
    requires
        forall|p: Vector| a.is_free(p) == b.is_free(p),
    ensures
        a.free_in_row(y, n) == b.free_in_row(y, n),
    decreases n,
{
    if n > 0 {
        lemma_free_in_row_same(a, b, y, (n - 1) as usize);
    }
}

/// Two boards of the same width with the same free tiles have equally many
/// of them in the first `m` rows.
pub proof fn lemma_free_in_rows_same(a: Board, b: Board, m: usize)
    requires
        a.dimensions.x == b.dimensions.x,
        forall|p: Vector| a.is_free(p) == b.is_free(p),
    ensures
        a.free_in_rows(m) == b.free_in_rows(m),
    decreases m,
{
    if m > 0 {
        let y = (m - 1) as usize;
        lemma_free_in_rows_same(a, b, y);
        lemma_free_in_row_same(a, b, y, a.dimensions.x);
    }
}

/// The rows of a grid fill it one after the other: the tile at `(x, y)` is
/// tile number `y * width + x`, and that number is below `width * height`.
pub proof fn lemma_tile_number(dimensions: Vector, x: usize, y: usize)
    requires
        x <= dimensions.x,
        y < dimensions.y,
    ensures
        y * dimensions.x + x <= dimensions.x * dimensions.y,
        x < dimensions.x ==> y * dimensions.x + x < dimensions.x * dimensions.y,
{
    assert((y + 1) * dimensions.x <= dimensions.y * dimensions.x) by (nonlinear_arith)
        requires
            y + 1 <= dimensions.y,
    ;
    assert((y + 1) * dimensions.x == y * dimensions.x + dimensions.x) by (nonlinear_arith);
    assert(dimensions.y * dimensions.x == dimensions.x * dimensions.y) by (nonlinear_arith);
}

/// The count of free tiles in a row grows with the number of tiles counted.
pub proof fn lemma_free_in_row_monotonic(board: Board, y: usize, n1: usize, n2: usize)
    requires
        n1 <= n2,
    ensures
        board.free_in_row(y, n1) <= board.free_in_row(y, n2),
    decreases n2,
{
    if n1 < n2 {
        lemma_free_in_row_monotonic(board, y, n1, (n2 - 1) as usize);
    }
}

/// The count of free tiles in the first rows grows with the number of rows
/// counted.
pub proof fn lemma_free_in_rows_monotonic(board: Board, m1: usize, m2: usize)
    requires
        m1 <= m2,
    ensures
        board.free_in_rows(m1) <= board.free_in_rows(m2),
    decreases m2,
{
    if m1 < m2 {
        lemma_free_in_rows_monotonic(board, m1, (m2 - 1) as usize);
    }
}

/// A free tile has fewer free tiles before it than the grid has in all.
pub proof fn lemma_rank_below_count(board: Board, p: Vector)
    requires
        board.is_free(p),
    ensures
        board.rank(p) < board.free_count(),
{
    let next = (p.x + 1) as usize;
    assert(board.free_in_row(p.y, next) == board.free_in_row(p.y, p.x) + 1);
    lemma_free_in_row_monotonic(board, p.y, next, board.dimensions.x);
    let below = (p.y + 1) as usize;
    assert(board.free_in_rows(below) == board.free_in_rows(p.y) + board.free_in_row(
        p.y,
        board.dimensions.x,
    ));
    lemma_free_in_rows_monotonic(board, below, board.dimensions.y);
}


/// Two free tiles with equally many free tiles before them are the same
/// tile.
pub proof fn lemma_rank_injective(board: Board, p: Vector, q: Vector)
    requires
        board.is_free(p),
        board.is_free(q),
        board.rank(p) == board.rank(q),
    ensures
        p == q,
{
    if p != q {
        if p.y < q.y || (p.y == q.y && p.x < q.x) {
            lemma_rank_grows(board, p, q);
        } else {
            lemma_rank_grows(board, q, p);
        }
    }
}

/// A free tile has fewer free tiles before it than any tile that comes later
/// in the grid, read row by row.
proof fn lemma_rank_grows(board: Board, p: Vector, q: Vector)
    requires
        board.is_free(p),
        p.y < q.y || (p.y == q.y && p.x < q.x),
    ensures
        board.rank(p) < board.rank(q),
{
    let next = (p.x + 1) as usize;
    assert(board.free_in_row(p.y, next) == board.free_in_row(p.y, p.x) + 1);
    if p.y == q.y {
        lemma_free_in_row_monotonic(board, p.y, next, q.x);
    } else {
        lemma_free_in_row_monotonic(board, p.y, next, board.dimensions.x);
        let below = (p.y + 1) as usize;
        assert(board.free_in_rows(below) == board.free_in_rows(p.y) + board.free_in_row(
            p.y,
            board.dimensions.x,
        ));
        lemma_free_in_rows_monotonic(board, below, q.y);
    }
}

/// Among the first `n` tiles of a row that has more than `index` free tiles
/// among them, one is free and has `index` free tiles of the row before it.
proof fn lemma_free_tile_in_row(board: Board, y: usize, index: nat, n: usize) -> (x: usize)
    requires
        index < board.free_in_row(y, n),
    ensures
        x < n,
        board.is_free(Vector { x, y }),
        board.free_in_row(y, x) == index,
    decreases n,
{
    let last = (n - 1) as usize;
    if index < board.free_in_row(y, last) {
        lemma_free_tile_in_row(board, y, index, last)
    } else {
        last
    }
}

/// In the first `m` rows of a grid that has more than `index` free tiles in
/// them, one tile is free and has `index` free tiles before it.
proof fn lemma_free_tile_in_rows(board: Board, index: nat, m: usize) -> (p: Vector)
    requires
        index < board.free_in_rows(m),
    ensures
        board.is_free(p),
        board.rank(p) == index,
    decreases m,
{
    let y = (m - 1) as usize;
    if index < board.free_in_rows(y) {
        lemma_free_tile_in_rows(board, index, y)
    } else {
        let within = (index - board.free_in_rows(y)) as nat;
        let x = lemma_free_tile_in_row(board, y, within, board.dimensions.x);
        Vector { x, y }
    }
}

/// Each number below the count of free tiles names a free tile: the one with
/// that many free tiles before it.
pub proof fn lemma_nth_free_exists(board: Board, index: nat)
    requires
        index < board.free_count(),
    ensures
        board.is_free(board.nth_free(index)),
        board.rank(board.nth_free(index)) == index,
{
    let p = lemma_free_tile_in_rows(board, index, board.dimensions.y);
    assert(board.is_free(p) && board.rank(p) == index);
}

/// The free tile with `index` free tiles before it is the tile that
/// `nth_free` names.
pub proof fn lemma_nth_free_is(board: Board, index: nat, p: Vector)
    requires
        board.is_free(p),
        board.rank(p) == index,
    ensures
        board.nth_free(index) == p,
{
    lemma_rank_injective(board, p, board.nth_free(index));
}


/// If `a` and `b` have the same free tiles but for `c`, which is free in `a`
/// only, then `a` has one more free tile among the first `n` of a row if `c`
/// is among them, and as many as `b` otherwise.
proof fn lemma_free_in_row_but_one(a: Board, b: Board, c: Vector, y: usize, n: usize)
    requires
        a.is_free(c),
        !b.is_free(c),
        forall|p: Vector| p != c ==> a.is_free(p) == b.is_free(p),
    ensures
        a.free_in_row(y, n) == b.free_in_row(y, n) + if y == c.y && c.x < n {
            1nat
        } else {
            0nat
        },
    decreases n,
{
    if n > 0 {
        lemma_free_in_row_but_one(a, b, c, y, (n - 1) as usize);
    }
}

/// If `a` and `b` have the same free tiles but for `c`, which is free in `a`
/// only, then `a` has one more free tile in the first `m` rows if `c` is in
/// them, and as many as `b` otherwise.
proof fn lemma_free_in_rows_but_one(a: Board, b: Board, c: Vector, m: usize)
    requires
        a.dimensions.x == b.dimensions.x,
        a.is_free(c),
        !b.is_free(c),
        forall|p: Vector| p != c ==> a.is_free(p) == b.is_free(p),
    ensures
        a.free_in_rows(m) == b.free_in_rows(m) + if c.y < m {
            1nat
        } else {
            0nat
        },
    decreases m,
{
    if m > 0 {
        let y = (m - 1) as usize;
        lemma_free_in_rows_but_one(a, b, c, y);
        lemma_free_in_row_but_one(a, b, c, y, a.dimensions.x);
    }
}

/// On a board whose snake is a head with the fruit under it, every tile of
/// a row is free but the head's.
proof fn lemma_free_in_row_of_bare_board(board: Board, y: usize, n: usize)
    requires
        board.tail.len() == 0,
        board.fruit == board.head,
        board.in_bounds(board.head),
        y < board.dimensions.y,
        n <= board.dimensions.x,
    ensures
        board.free_in_row(y, n) + (if y == board.head.y && board.head.x < n {
            1nat
        } else {
            0nat
        }) == n,
    decreases n,
{
    if n > 0 {
        lemma_free_in_row_of_bare_board(board, y, (n - 1) as usize);
    }
}

/// On a board whose snake is a head with the fruit under it, every tile of
/// the first `m` rows is free but the head's.
proof fn lemma_free_in_rows_of_bare_board(board: Board, m: usize)
    requires
        board.tail.len() == 0,
        board.fruit == board.head,
        board.in_bounds(board.head),
        m <= board.dimensions.y,
    ensures
        board.free_in_rows(m) + (if board.head.y < m {
            1nat
        } else {
            0nat
        }) == m * board.dimensions.x,
    decreases m,
{
    if m > 0 {
        let y = (m - 1) as usize;
        lemma_free_in_rows_of_bare_board(board, y);
        lemma_free_in_row_of_bare_board(board, y, board.dimensions.x);
        assert(y * board.dimensions.x + board.dimensions.x == m * board.dimensions.x)
            by (nonlinear_arith)
            requires
                y + 1 == m,
        ;
    } else {
        assert(0 * board.dimensions.x == 0);
    }
}

/// The free tiles are the tiles that are left when the snake and the fruit
/// have each taken theirs: on a board whose snake is on the grid and does
/// not cross itself, and whose fruit is on the grid and not under the tail,
/// the free tiles, the parts of the snake and the fruit, unless it lies
/// under the head, add up to the tiles of the grid.
pub proof fn lemma_free_tiles_are_the_rest(board: Board)
    requires
        board.in_bounds(board.head),
        board.in_bounds(board.fruit),
        forall|i: int| 0 <= i < board.tail.len() ==> board.in_bounds(#[trigger] board.tail[i]),
        board.tail.no_duplicates(),
        !board.tail.contains(board.head),
        !board.tail.contains(board.fruit),
    ensures
        board.free_count() + 1 + board.tail.len() + (if board.fruit == board.head {
            0nat
        } else {
            1nat
        }) == board.dimensions.x * board.dimensions.y,
    decreases board.tail.len(),
{
    if board.tail.len() > 0 {
        let last = board.tail.last();
        let shorter = Board { tail: board.tail.drop_last(), ..board };
        assert forall|p: Vector| p != last implies shorter.is_free(p) == board.is_free(p) by {
            lemma_drop_last_contains(board.tail, p);
        }
        lemma_drop_last_contains(board.tail, last);
        lemma_drop_last_contains(board.tail, board.head);
        lemma_drop_last_contains(board.tail, board.fruit);
        assert(board.tail.contains(last));
        assert forall|i: int| 0 <= i < shorter.tail.len() implies shorter.in_bounds(
            #[trigger] shorter.tail[i],
        ) by {
            assert(shorter.tail[i] == board.tail[i]);
        }
        lemma_free_in_rows_but_one(shorter, board, last, board.dimensions.y);
        lemma_free_tiles_are_the_rest(shorter);
    } else {
        let bare = Board { fruit: board.head, ..board };
        if board.fruit != board.head {
            lemma_free_in_rows_but_one(bare, board, board.fruit, board.dimensions.y);
        }
        lemma_free_in_rows_of_bare_board(bare, board.dimensions.y);
        assert(board.dimensions.y * board.dimensions.x == board.dimensions.x * board.dimensions.y)
            by (nonlinear_arith);
    }
}


} // verus!
