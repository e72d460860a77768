//! The mathematical model of a grid: a rectangle of booleans.

use vstd::prelude::*;

verus! {

/// A `width` by `height` rectangle of cells. `rows[y][x]` tells whether the
/// cell in column `x` of row `y` is alive.
pub struct Board {
    pub width: nat,
    pub height: nat,
    pub rows: Seq<Seq<bool>>,
}

impl Board {
    /// There are `height` rows and each of them holds `width` cells.
    pub open spec fn wf(self) -> bool {
        &&& self.rows.len() == self.height
        &&& forall|y: int| 0 <= y < self.height ==> (#[trigger] self.rows[y]).len() == self.width
    }

    /// `(x, y)` names a cell of the board.
    pub open spec fn contains(self, x: int, y: int) -> bool {
        0 <= x < self.width && 0 <= y < self.height
    }

    /// The state of the cell in column `x` of row `y`.
    pub open spec fn alive(self, x: int, y: int) -> bool {
        self.rows[y][x]
    }

    /// The board whose cell `(x, y)` is alive exactly when `f(x, y)` holds.
    pub open spec fn from_fn(width: nat, height: nat, f: spec_fn(int, int) -> bool) -> Board {
        Board {
            width,
            height,
            rows: Seq::new(height, |y: int| Seq::new(width, |x: int| f(x, y))),
        }
    }

    /// The board on which every cell has the state `value`.
    pub open spec fn uniform(width: nat, height: nat, value: bool) -> Board {
        Board::from_fn(width, height, |x: int, y: int| value)
    }

    /// This board with the cell `(x, y)` set to `value`.
    pub open spec fn with_cell(self, x: int, y: int, value: bool) -> Board {
        Board {
            width: self.width,
            height: self.height,
            rows: self.rows.update(y, self.rows[y].update(x, value)),
        }
    }

    /// Every cell has the state `value`.
    pub open spec fn all(self, value: bool) -> bool {
        forall|x: int, y: int| self.contains(x, y) ==> #[trigger] self.alive(x, y) == value
    }
}

/// Two well-formed boards of one size that agree on every cell are equal.
pub proof fn lemma_board_ext(a: Board, b: Board)
    requires
        a.wf(),
        b.wf(),
        a.width == b.width,
        a.height == b.height,
        forall|x: int, y: int| a.contains(x, y) ==> a.alive(x, y) == b.alive(x, y),
    ensures
        a == b,
{
    assert forall|y: int| 0 <= y < a.height implies a.rows[y] =~= b.rows[y] by {
        assert forall|x: int| 0 <= x < a.width implies a.rows[y][x] == b.rows[y][x] by {
            assert(a.contains(x, y));
        }
    }
    assert(a.rows =~= b.rows);
}

/// `with_cell` changes the one cell it names and nothing else.
pub proof fn lemma_with_cell(b: Board, x: int, y: int, value: bool)
    requires
        b.wf(),
        b.contains(x, y),
    ensures
        b.with_cell(x, y, value).wf(),
        b.with_cell(x, y, value).width == b.width,
        b.with_cell(x, y, value).height == b.height,
        b.with_cell(x, y, value).alive(x, y) == value,
        forall|i: int, j: int|
            b.contains(i, j) && (i != x || j != y) ==> #[trigger] b.with_cell(x, y, value).alive(
                i,
                j,
            ) == b.alive(i, j),
{
}

} // verus!
