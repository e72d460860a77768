//! The transition rule: what a cell, and then a whole grid, becomes in the
//! next generation.

use crate::board::{lemma_board_ext, lemma_with_cell, Board};
use crate::grid::Grid;
use vstd::prelude::*;

verus! {

/// The coordinate `i` brought back into `0..n` by going round the torus.
pub open spec fn wrap(i: int, n: nat) -> int {
    i % (n as int)
}

/// One for a live cell and nothing for a dead one.
pub open spec fn count(alive: bool) -> nat {
    if alive {
        1
    } else {
        0
    }
}

/// The rule of Life: a cell is alive in the next generation when it has three
/// live neighbours, or when it is alive and has two.
pub open spec fn rule(alive: bool, live_neighbors: nat) -> bool {
    live_neighbors == 3 || (alive && live_neighbors == 2)
}

impl Board {
    /// The state of the cell that lies `dx` columns and `dy` rows from
    /// `(x, y)`, each axis wrapped by its own extent.
    pub open spec fn neighbor(self, x: int, y: int, dx: int, dy: int) -> bool {
        self.alive(wrap(x + dx, self.width), wrap(y + dy, self.height))
    }

    /// How many of the eight cells around `(x, y)` are alive.
    pub open spec fn live_neighbors(self, x: int, y: int) -> nat {
        count(self.neighbor(x, y, -1, -1)) + count(self.neighbor(x, y, 0, -1)) + count(
            self.neighbor(x, y, 1, -1),
        ) + count(self.neighbor(x, y, -1, 0)) + count(self.neighbor(x, y, 1, 0)) + count(
            self.neighbor(x, y, -1, 1),
        ) + count(self.neighbor(x, y, 0, 1)) + count(self.neighbor(x, y, 1, 1))
    }

    /// The state of the cell `(x, y)` one generation on.
    pub open spec fn next_alive(self, x: int, y: int) -> bool {
        rule(self.alive(x, y), self.live_neighbors(x, y))
    }

    /// The board one generation on: every cell follows the rule, all of them
    /// read from this board.
    pub open spec fn step(self) -> Board {
        Board::from_fn(self.width, self.height, |x: int, y: int| self.next_alive(x, y))
    }

    /// The board `n` generations on.
    pub open spec fn steps(self, n: nat) -> Board
        decreases n,
    {
        if n == 0 {
            self
        } else {
            self.step().steps((n - 1) as nat)
        }
    }
}

/// A coordinate one step outside `0..n` wraps to the far end; one inside
/// stays.
pub proof fn lemma_wrap(i: int, n: nat)
    requires
        n > 0,
        -1 <= i <= n,
    ensures
        wrap(i, n) == if i < 0 {
            n - 1
        } else if i == n {
            0
        } else {
            i
        },
{
    let m = n as int;
    assert(i % m == if i < 0 {
        m - 1
    } else if i == m {
        0
    } else {
        i
    }) by (nonlinear_arith)
        requires
            m > 0,
            -1 <= i <= m,
    ;
}

/// The column to the left of `x` on a torus `width` wide.
fn before(x: usize, width: usize) -> (r: usize)
    requires
        x < width,
    ensures
        r == wrap(x - 1, width as nat),
        r < width,
{
    proof {
        lemma_wrap(x - 1, width as nat);
    }
    if x == 0 {
        width - 1
    } else {
        x - 1
    }
}

/// The column to the right of `x` on a torus `width` wide.
fn after(x: usize, width: usize) -> (r: usize)
    requires
        x < width,
    ensures
        r == wrap(x + 1, width as nat),
        r < width,
{
    proof {
        lemma_wrap(x + 1, width as nat);
    }
    if x + 1 == width {
        0
    } else {
        x + 1
    }
}

/// Adds one to `n` when the cell `(x, y)` is alive.
fn tally(grid: &Grid, x: usize, y: usize, n: u8) -> (r: u8)
    requires
        grid@.contains(x as int, y as int),
        n < 8,
    ensures
        r == n + count(grid@.alive(x as int, y as int)),
{
    if grid.get(x, y) {
        n + 1
    } else {
        n
    }
}

/// The state of the cell `(x, y)` in the next generation.
pub fn next_state(grid: &Grid, x: usize, y: usize) -> (alive: bool)
    requires
        grid@.contains(x as int, y as int),
    ensures
        alive == grid@.next_alive(x as int, y as int),
{
    let width = grid.width();
    let height = grid.height();
    let left = before(x, width);
    let right = after(x, width);
    let up = before(y, height);
    let down = after(y, height);
    proof {
        lemma_wrap(x as int, width as nat);
        lemma_wrap(y as int, height as nat);
    }
    let mut live_neighbors: u8 = 0;
    live_neighbors = tally(grid, left, up, live_neighbors);
    live_neighbors = tally(grid, x, up, live_neighbors);
    live_neighbors = tally(grid, right, up, live_neighbors);
    live_neighbors = tally(grid, left, y, live_neighbors);
    live_neighbors = tally(grid, right, y, live_neighbors);
    live_neighbors = tally(grid, left, down, live_neighbors);
    live_neighbors = tally(grid, x, down, live_neighbors);
    live_neighbors = tally(grid, right, down, live_neighbors);
    match (grid.get(x, y), live_neighbors) {
        (true, 2) | (_, 3) => true,
        _ => false,
    }
}

/// Writes into `next` the generation that follows `cur`. Every cell is
/// computed from `cur` alone, so the two grids never mix.
pub fn next_generation(cur: &Grid, next: &mut Grid)
    requires
        old(next)@.width == cur@.width,
        old(next)@.height == cur@.height,
    ensures
        final(next)@ == cur@.step(),
{
    let width = cur.width();
    let height = cur.height();
    let mut y: usize = 0;
    while y < height
        invariant
            width == cur@.width,
            height == cur@.height,
            next@.width == width,
            next@.height == height,
            y <= height,
            forall|i: int, j: int|
                0 <= i < width && 0 <= j < y ==> #[trigger] next@.alive(i, j) == cur@.next_alive(
                    i,
                    j,
                ),
        decreases height - y,
    {
        let mut x: usize = 0;
        while x < width
            invariant
                width == cur@.width,
                height == cur@.height,
                next@.width == width,
                next@.height == height,
                y < height,
                x <= width,
                forall|i: int, j: int|
                    0 <= i < width && 0 <= j < y ==> #[trigger] next@.alive(i, j)
                        == cur@.next_alive(i, j),
                forall|i: int| 0 <= i < x ==> #[trigger] next@.alive(i, y as int) == cur@.next_alive(i, y as int),
            decreases width - x,
        {
            let alive = next_state(cur, x, y);
            proof {
                next.lemma_view_wf();
                lemma_with_cell(next@, x as int, y as int, alive);
            }
            next.set(x, y, alive);
            x += 1;
        }
        y += 1;
    }
    proof {
        next.lemma_view_wf();
        lemma_board_ext(next@, cur@.step());
    }
}

} // verus!
