//! What the rule does to a few boards that are known by name: the empty
//! board, the boards of one and of four cells, the block and the blinker.

use crate::board::{lemma_board_ext, Board};
use crate::life::{count, lemma_wrap, wrap};
use vstd::prelude::*;

verus! {

/// The cells of a block: the two columns from `x0` on and the two rows from
/// `y0` on, going round the torus where they reach its edge.
pub open spec fn block_cells(width: nat, height: nat, x0: int, y0: int) -> spec_fn(int, int) -> bool {
    |x: int, y: int|
        (x == x0 || x == wrap(x0 + 1, width)) && (y == y0 || y == wrap(y0 + 1, height))
}

/// The board that holds one block, with its first corner at `(x0, y0)`, and
/// no other live cell.
pub open spec fn block(width: nat, height: nat, x0: int, y0: int) -> Board {
    Board::from_fn(width, height, block_cells(width, height, x0, y0))
}

/// The cells of a blinker that lies along a row: `(cx, cy)` and the cells to
/// its left and right.
pub open spec fn row_blinker_cells(width: nat, cx: int, cy: int) -> spec_fn(int, int) -> bool {
    |x: int, y: int| y == cy && (x == wrap(cx - 1, width) || x == cx || x == wrap(cx + 1, width))
}

/// The cells of a blinker that stands in a column: `(cx, cy)` and the cells
/// above and below it.
pub open spec fn column_blinker_cells(height: nat, cx: int, cy: int) -> spec_fn(int, int) -> bool {
    |x: int, y: int| x == cx && (y == wrap(cy - 1, height) || y == cy || y == wrap(cy + 1, height))
}

/// The board that holds one blinker along a row, centred at `(cx, cy)`.
pub open spec fn row_blinker(width: nat, height: nat, cx: int, cy: int) -> Board {
    Board::from_fn(width, height, row_blinker_cells(width, cx, cy))
}

/// The board that holds one blinker in a column, centred at `(cx, cy)`.
pub open spec fn column_blinker(width: nat, height: nat, cx: int, cy: int) -> Board {
    Board::from_fn(width, height, column_blinker_cells(height, cx, cy))
}

/// On a board of a single cell the cell is all eight of its own neighbours:
/// it counts eight of them when it is alive and none when it is dead, and in
/// both cases it is dead one generation on.
pub proof fn lemma_single_cell(b: Board)
    requires
        b.wf(),
        b.width == 1,
        b.height == 1,
    ensures
        b.live_neighbors(0, 0) == 8 * count(b.alive(0, 0)),
        !b.next_alive(0, 0),
        b.step() == Board::uniform(1, 1, false),
{
    lemma_wrap(-1, 1);
    lemma_wrap(0, 1);
    lemma_wrap(1, 1);
    lemma_board_ext(b.step(), Board::uniform(1, 1, false));
}

/// On a board of two columns and two rows each cell meets the cell beside it
/// twice, the cell above it twice, and the cell across the corner four times.
pub proof fn lemma_two_by_two(b: Board, x: int, y: int)
    requires
        b.wf(),
        b.width == 2,
        b.height == 2,
        b.contains(x, y),
    ensures
        b.live_neighbors(x, y) == 2 * count(b.alive(1 - x, y)) + 2 * count(b.alive(x, 1 - y)) + 4
            * count(b.alive(1 - x, 1 - y)),
{
    lemma_wrap(x - 1, 2);
    lemma_wrap(x, 2);
    lemma_wrap(x + 1, 2);
    lemma_wrap(y - 1, 2);
    lemma_wrap(y, 2);
    lemma_wrap(y + 1, 2);
}

/// A cell whose eight neighbours are all dead is dead one generation on.
proof fn lemma_lonely_cell(b: Board, x: int, y: int)
    requires
        b.wf(),
        b.contains(x, y),
        b.all(false),
    ensures
        !b.next_alive(x, y),
{
    lemma_wrap(x - 1, b.width);
    lemma_wrap(x, b.width);
    lemma_wrap(x + 1, b.width);
    lemma_wrap(y - 1, b.height);
    lemma_wrap(y, b.height);
    lemma_wrap(y + 1, b.height);
    assert(b.contains(wrap(x - 1, b.width), wrap(y - 1, b.height)));
    assert(b.contains(wrap(x, b.width), wrap(y - 1, b.height)));
    assert(b.contains(wrap(x + 1, b.width), wrap(y - 1, b.height)));
    assert(b.contains(wrap(x - 1, b.width), wrap(y, b.height)));
    assert(b.contains(wrap(x + 1, b.width), wrap(y, b.height)));
    assert(b.contains(wrap(x - 1, b.width), wrap(y + 1, b.height)));
    assert(b.contains(wrap(x, b.width), wrap(y + 1, b.height)));
    assert(b.contains(wrap(x + 1, b.width), wrap(y + 1, b.height)));
}

/// A board without a live cell is the same board after any number of
/// generations.
pub proof fn lemma_empty_stays_empty(b: Board, n: nat)
    requires
        b.wf(),
        b.all(false),
    ensures
        b.steps(n) == b,
        b.steps(n).all(false),
    decreases n,
{
    if n > 0 {
        assert forall|x: int, y: int| b.contains(x, y) implies b.step().alive(x, y) == b.alive(
            x,
            y,
        ) by {
            lemma_lonely_cell(b, x, y);
        }
        lemma_board_ext(b.step(), b);
        lemma_empty_stays_empty(b, (n - 1) as nat);
    }
}

/// The sum that `live_neighbors` takes, for a board whose cell `(c, r)` is
/// alive when the column `c` is marked and the row `r` is marked: `cl`, `cx`,
/// `cr` are the marks of the columns left of, at and right of a cell, and
/// `ru`, `ry`, `rd` those of the rows above, at and below it.
spec fn marked_neighbors(cl: bool, cx: bool, cr: bool, ru: bool, ry: bool, rd: bool) -> nat {
    count(cl && ru) + count(cx && ru) + count(cr && ru) + count(cl && ry) + count(cr && ry) + count(
        cl && rd,
    ) + count(cx && rd) + count(cr && rd)
}

/// On a board made of marked columns and marked rows, the neighbours of a
/// cell add up to `marked_neighbors` of the marks around it.
proof fn lemma_marked_neighbors(b: Board, cols: spec_fn(int) -> bool, rows: spec_fn(int) -> bool, x: int, y: int)
    requires
        b.wf(),
        b.width > 0,
        b.height > 0,
        b.contains(x, y),
        forall|i: int, j: int| b.contains(i, j) ==> #[trigger] b.alive(i, j) == (cols(i) && rows(j)),
    ensures
        b.alive(x, y) == (cols(x) && rows(y)),
        b.live_neighbors(x, y) == marked_neighbors(
            cols(wrap(x - 1, b.width)),
            cols(x),
            cols(wrap(x + 1, b.width)),
            rows(wrap(y - 1, b.height)),
            rows(y),
            rows(wrap(y + 1, b.height)),
        ),
{
    let l = wrap(x - 1, b.width);
    let r = wrap(x + 1, b.width);
    let u = wrap(y - 1, b.height);
    let d = wrap(y + 1, b.height);
    lemma_wrap(x - 1, b.width);
    lemma_wrap(x, b.width);
    lemma_wrap(x + 1, b.width);
    lemma_wrap(y - 1, b.height);
    lemma_wrap(y, b.height);
    lemma_wrap(y + 1, b.height);
    assert(b.neighbor(x, y, -1, -1) == b.alive(l, u));
    assert(b.neighbor(x, y, 0, -1) == b.alive(x, u));
    assert(b.neighbor(x, y, 1, -1) == b.alive(r, u));
    assert(b.neighbor(x, y, -1, 0) == b.alive(l, y));
    assert(b.neighbor(x, y, 1, 0) == b.alive(r, y));
    assert(b.neighbor(x, y, -1, 1) == b.alive(l, d));
    assert(b.neighbor(x, y, 0, 1) == b.alive(x, d));
    assert(b.neighbor(x, y, 1, 1) == b.alive(r, d));
    assert(b.contains(l, u) && b.contains(x, u) && b.contains(r, u));
    assert(b.contains(l, y) && b.contains(r, y));
    assert(b.contains(l, d) && b.contains(x, d) && b.contains(r, d));
}

/// The marks of a pair of neighbouring places on a ring: the place `p` and the
/// one after it.
spec fn pair_marks(n: nat, p: int) -> spec_fn(int) -> bool {
    |i: int| i == p || i == wrap(p + 1, n)
}

/// The marks of three places in a row on a ring: the place `p` and the ones
/// before and after it.
spec fn triple_marks(n: nat, p: int) -> spec_fn(int) -> bool {
    |i: int| i == wrap(p - 1, n) || i == p || i == wrap(p + 1, n)
}

/// The mark of the single place `p`.
spec fn single_mark(p: int) -> spec_fn(int) -> bool {
    |i: int| i == p
}

/// On a ring of at least four places, a place in a marked pair has exactly
/// one marked neighbour, and a place outside it has at most one.
proof fn lemma_pair_on_ring(n: nat, p: int, x: int)
    requires
        n >= 4,
        0 <= p < n,
        0 <= x < n,
    ensures
        ({
            let m = pair_marks(n, p);
            let l = m(wrap(x - 1, n));
            let r = m(wrap(x + 1, n));
            &&& m(x) ==> l != r
            &&& !m(x) ==> !(l && r)
        }),
{
    lemma_wrap(p + 1, n);
    lemma_wrap(x - 1, n);
    lemma_wrap(x + 1, n);
}

/// On a ring of at least four places, the middle of a marked triple has both
/// neighbours marked, and an end of it has exactly one marked. A place is in
/// the triple when it or one of its neighbours is the middle, and at most one
/// of these three is.
proof fn lemma_triple_on_ring(n: nat, p: int, x: int)
    requires
        n >= 4,
        0 <= p < n,
        0 <= x < n,
    ensures
        ({
            let m = triple_marks(n, p);
            let l = wrap(x - 1, n);
            let r = wrap(x + 1, n);
            &&& x == p ==> m(l) && m(x) && m(r)
            &&& x != p && m(x) ==> m(l) != m(r)
            &&& m(x) <==> l == p || x == p || r == p
            &&& !(l == p && r == p)
            &&& x == p ==> l != p && r != p
        }),
{
    lemma_wrap(p - 1, n);
    lemma_wrap(p + 1, n);
    lemma_wrap(x - 1, n);
    lemma_wrap(x + 1, n);
}

/// The rule on a block, cell by cell.
proof fn lemma_block_cell(width: nat, height: nat, x0: int, y0: int, x: int, y: int)
    requires
        width >= 4,
        height >= 4,
        0 <= x0 < width,
        0 <= y0 < height,
        0 <= x < width,
        0 <= y < height,
    ensures
        block(width, height, x0, y0).next_alive(x, y) == block(width, height, x0, y0).alive(x, y),
        block(width, height, x0, y0).alive(x, y) ==> block(width, height, x0, y0).live_neighbors(
            x,
            y,
        ) == 3,
{
    let b = block(width, height, x0, y0);
    lemma_pair_on_ring(width, x0, x);
    lemma_pair_on_ring(height, y0, y);
    lemma_marked_neighbors(b, pair_marks(width, x0), pair_marks(height, y0), x, y);
}

/// The block is a still life: on a board of at least four columns and four
/// rows, a block with no other live cell around it is the same board one
/// generation on, wherever it lies. Each of its four cells has exactly three
/// live neighbours.
pub proof fn lemma_block_is_still(width: nat, height: nat, x0: int, y0: int)
    requires
        width >= 4,
        height >= 4,
        0 <= x0 < width,
        0 <= y0 < height,
    ensures
        block(width, height, x0, y0).step() == block(width, height, x0, y0),
        forall|x: int, y: int|
            0 <= x < width && 0 <= y < height && block(width, height, x0, y0).alive(x, y)
                ==> #[trigger] block(width, height, x0, y0).live_neighbors(x, y) == 3,
{
    let b = block(width, height, x0, y0);
    assert forall|x: int, y: int| b.contains(x, y) implies b.step().alive(x, y) == b.alive(
        x,
        y,
    ) by {
        lemma_block_cell(width, height, x0, y0, x, y);
    }
    lemma_board_ext(b.step(), b);
    assert forall|x: int, y: int| 0 <= x < width && 0 <= y < height && b.alive(x, y) implies #[trigger] b.live_neighbors(
        x,
        y,
    ) == 3 by {
        lemma_block_cell(width, height, x0, y0, x, y);
    }
}

/// The rule on a blinker along a row, cell by cell.
proof fn lemma_row_blinker_cell(width: nat, height: nat, cx: int, cy: int, x: int, y: int)
    requires
        width >= 4,
        height >= 4,
        0 <= cx < width,
        0 <= cy < height,
        0 <= x < width,
        0 <= y < height,
    ensures
        row_blinker(width, height, cx, cy).next_alive(x, y) == column_blinker(
            width,
            height,
            cx,
            cy,
        ).alive(x, y),
{
    let b = row_blinker(width, height, cx, cy);
    lemma_triple_on_ring(width, cx, x);
    lemma_triple_on_ring(height, cy, y);
    lemma_marked_neighbors(b, triple_marks(width, cx), single_mark(cy), x, y);
}

/// The rule on a blinker in a column, cell by cell.
proof fn lemma_column_blinker_cell(width: nat, height: nat, cx: int, cy: int, x: int, y: int)
    requires
        width >= 4,
        height >= 4,
        0 <= cx < width,
        0 <= cy < height,
        0 <= x < width,
        0 <= y < height,
    ensures
        column_blinker(width, height, cx, cy).next_alive(x, y) == row_blinker(
            width,
            height,
            cx,
            cy,
        ).alive(x, y),
{
    let b = column_blinker(width, height, cx, cy);
    lemma_triple_on_ring(width, cx, x);
    lemma_triple_on_ring(height, cy, y);
    lemma_marked_neighbors(b, single_mark(cx), triple_marks(height, cy), x, y);
}

/// The blinker has period two: on a board of at least four columns and four
/// rows, a blinker along a row becomes the blinker in the column through its
/// centre, and that one becomes the first again.
pub proof fn lemma_blinker_oscillates(width: nat, height: nat, cx: int, cy: int)
    requires
        width >= 4,
        height >= 4,
        0 <= cx < width,
        0 <= cy < height,
    ensures
        row_blinker(width, height, cx, cy).step() == column_blinker(width, height, cx, cy),
        column_blinker(width, height, cx, cy).step() == row_blinker(width, height, cx, cy),
        row_blinker(width, height, cx, cy).steps(2) == row_blinker(width, height, cx, cy),
{
    let across = row_blinker(width, height, cx, cy);
    let upright = column_blinker(width, height, cx, cy);
    assert forall|x: int, y: int| across.contains(x, y) implies across.step().alive(x, y)
        == upright.alive(x, y) by {
        lemma_row_blinker_cell(width, height, cx, cy, x, y);
    }
    lemma_board_ext(across.step(), upright);
    assert forall|x: int, y: int| upright.contains(x, y) implies upright.step().alive(x, y)
        == across.alive(x, y) by {
        lemma_column_blinker_cell(width, height, cx, cy, x, y);
    }
    lemma_board_ext(upright.step(), across);
    reveal_with_fuel(Board::steps, 3);
}

} // verus!
