//! The grid of cells: fixed in size, every cell either alive or dead.

use crate::board::{lemma_board_ext, lemma_with_cell, Board};
use crate::cell_array::{cell_cols, cell_rows, shape_fits, CellArray};
use crate::probability::Probability;
use crate::rng::gen_ratio;
use rand_xoshiro::Xoshiro256PlusPlus;
use vstd::prelude::*;

verus! {

/// A grid of `width` columns and `height` rows. The cell `(x, y)` is the one
/// in column `x` of row `y`.
pub struct Grid {
    cells: CellArray,
}

impl View for Grid {
    type V = Board;

    closed spec fn view(&self) -> Board {
        Board::from_fn(
            cell_cols(self.cells),
            cell_rows(self.cells).len(),
            |x: int, y: int| cell_rows(self.cells)[y][x],
        )
    }
}

impl Grid {
    /// The board of a grid holds a cell for every place of its rectangle.
    pub proof fn lemma_view_wf(&self)
        ensures
            self@.wf(),
    {
    }

    /// A grid of this size can be allocated.
    pub open spec fn size_fits(width: usize, height: usize) -> bool {
        shape_fits(height, width)
    }

    /// A grid of `width` by `height` cells, each in the state `value`.
    pub fn new(width: usize, height: usize, value: bool) -> (grid: Grid)
        requires
            Grid::size_fits(width, height),
        ensures
            grid@ == Board::uniform(width as nat, height as nat, value),
    {
        let grid = Grid { cells: CellArray::from_elem(height, width, value) };
        proof {
            lemma_board_ext(grid@, Board::uniform(width as nat, height as nat, value));
        }
        grid
    }

    /// The number of columns.
    pub fn width(&self) -> (width: usize)
        ensures
            width == self@.width,
    {
        self.cells.ncols()
    }

    /// The number of rows.
    pub fn height(&self) -> (height: usize)
        ensures
            height == self@.height,
    {
        self.cells.nrows()
    }

    /// The state of the cell `(x, y)`.
    pub fn get(&self, x: usize, y: usize) -> (alive: bool)
        requires
            self@.contains(x as int, y as int),
        ensures
            alive == self@.alive(x as int, y as int),
    {
        self.cells.get(y, x)
    }

    /// Puts the cell `(x, y)` in the state `value` and leaves every other
    /// cell as it was.
    pub fn set(&mut self, x: usize, y: usize, value: bool)
        requires
            old(self)@.contains(x as int, y as int),
        ensures
            final(self)@ == old(self)@.with_cell(x as int, y as int, value),
    {
        self.cells.set(y, x, value);
        proof {
            let changed = old(self)@.with_cell(x as int, y as int, value);
            lemma_with_cell(old(self)@, x as int, y as int, value);
            lemma_board_ext(self@, changed);
        }
    }

    /// Fills the grid at random: every cell is drawn anew from `rng`, alive
    /// with the chance `p`, each by a draw of its own. With a chance of none
    /// the grid comes out without a live cell, and with a certainty without a
    /// dead one, whatever state `rng` is in.
    pub fn randomize(&mut self, rng: &mut Xoshiro256PlusPlus, p: Probability)
        requires
            p.valid(),
        ensures
            final(self)@.width == old(self)@.width,
            final(self)@.height == old(self)@.height,
            p.never() ==> final(self)@ == Board::uniform(old(self)@.width, old(self)@.height, false),
            p.always() ==> final(self)@ == Board::uniform(old(self)@.width, old(self)@.height, true),
    {
        let width = self.width();
        let height = self.height();
        let mut y: usize = 0;
        while y < height
            invariant
                p.valid(),
                width == self@.width == old(self)@.width,
                height == self@.height == old(self)@.height,
                y <= height,
                p.never() ==> forall|i: int, j: int|
                    0 <= i < width && 0 <= j < y ==> !#[trigger] self@.alive(i, j),
                p.always() ==> forall|i: int, j: int|
                    0 <= i < width && 0 <= j < y ==> #[trigger] self@.alive(i, j),
            decreases height - y,
        {
            let mut x: usize = 0;
            while x < width
                invariant
                    p.valid(),
                    width == self@.width == old(self)@.width,
                    height == self@.height == old(self)@.height,
                    y < height,
                    x <= width,
                    p.never() ==> forall|i: int, j: int|
                        0 <= i < width && (0 <= j < y || (j == y && i < x)) ==> !#[trigger] self@.alive(i, j),
                    p.always() ==> forall|i: int, j: int|
                        0 <= i < width && (0 <= j < y || (j == y && i < x)) ==> #[trigger] self@.alive(i, j),
                decreases width - x,
            {
                let alive = gen_ratio(rng, p.numerator, p.denominator);
                proof {
                    self.lemma_view_wf();
                    lemma_with_cell(self@, x as int, y as int, alive);
                }
                self.set(x, y, alive);
                x += 1;
            }
            y += 1;
        }
        proof {
            self.lemma_view_wf();
            if p.never() {
                lemma_board_ext(self@, Board::uniform(width as nat, height as nat, false));
            }
            if p.always() {
                lemma_board_ext(self@, Board::uniform(width as nat, height as nat, true));
            }
        }
    }
}

} // verus!
