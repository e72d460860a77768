//! The rasterizer: a grid painted into a grey-scale pixel buffer, every cell
//! as a square block of one of two intensities.

use crate::board::Board;
use crate::gray_canvas::{pixel_cols, pixel_rows, GrayCanvas};
use crate::grid::Grid;
use vstd::prelude::*;

verus! {

/// The intensity of the pixels of a live cell.
pub const LIVE_INTENSITY: u8 = 64;

/// The intensity of the pixels of a dead cell.
pub const DEAD_INTENSITY: u8 = 0;

/// The mathematical model of a pixel buffer: `width` by `height` pixels of
/// one channel. `rows[y][x]` is the intensity of the pixel `(x, y)`.
pub struct Raster {
    pub width: nat,
    pub height: nat,
    pub rows: Seq<Seq<u8>>,
}

impl Raster {
    /// There are `height` rows and each of them holds `width` pixels.
    pub open spec fn wf(self) -> bool {
        &&& self.rows.len() == self.height
        &&& forall|y: int| 0 <= y < self.height ==> (#[trigger] self.rows[y]).len() == self.width
    }

    /// `(x, y)` names a pixel of the buffer.
    pub open spec fn contains(self, x: int, y: int) -> bool {
        0 <= x < self.width && 0 <= y < self.height
    }

    /// The intensity of the pixel `(x, y)`.
    pub open spec fn pixel(self, x: int, y: int) -> u8 {
        self.rows[y][x]
    }

    /// The buffer whose pixel `(x, y)` has the intensity `f(x, y)`.
    pub open spec fn from_fn(width: nat, height: nat, f: spec_fn(int, int) -> u8) -> Raster {
        Raster {
            width,
            height,
            rows: Seq::new(height, |y: int| Seq::new(width, |x: int| f(x, y))),
        }
    }

    /// This buffer with the pixel `(x, y)` set to `value`.
    pub open spec fn with_pixel(self, x: int, y: int, value: u8) -> Raster {
        Raster {
            width: self.width,
            height: self.height,
            rows: self.rows.update(y, self.rows[y].update(x, value)),
        }
    }
}

/// Two well-formed buffers of one size that agree on every pixel are equal.
pub proof fn lemma_raster_ext(a: Raster, b: Raster)
    requires
        a.wf(),
        b.wf(),
        a.width == b.width,
        a.height == b.height,
        forall|x: int, y: int| a.contains(x, y) ==> a.pixel(x, y) == b.pixel(x, y),
    ensures
        a == b,
{
    assert forall|y: int| 0 <= y < a.height implies a.rows[y] =~= b.rows[y] by {
        assert forall|x: int| 0 <= x < a.width implies a.rows[y][x] == b.rows[y][x] by {
            assert(a.contains(x, y));
        }
    }
    assert(a.rows =~= b.rows);
}

/// The intensity that shows a cell's state.
pub open spec fn intensity(alive: bool) -> u8 {
    if alive {
        LIVE_INTENSITY
    } else {
        DEAD_INTENSITY
    }
}

/// The picture of a board at `size` pixels to a cell's edge: the pixel
/// `(px, py)` shows the cell `(px / size, py / size)`.
pub open spec fn render(board: Board, size: nat) -> Raster {
    Raster::from_fn(
        board.width * size,
        board.height * size,
        |px: int, py: int| intensity(board.alive(px / (size as int), py / (size as int))),
    )
}

/// A buffer for a board of `width` by `height` cells at `size` pixels to a
/// cell's edge can be allocated: each side fits in a `u32` and the pixels can
/// all be held in memory.
pub open spec fn buffer_fits(width: nat, height: nat, size: nat) -> bool {
    &&& width * size <= u32::MAX
    &&& height * size <= u32::MAX
    &&& (width * size) * (height * size) <= isize::MAX
}

/// Tells whether a buffer for a grid of `width` by `height` cells at `size`
/// pixels to a cell's edge can be allocated.
pub fn picture_fits(width: usize, height: usize, size: u32) -> (fits: bool)
    ensures
        fits == buffer_fits(width as nat, height as nat, size as nat),
{
    if size == 0 {
        return true;
    }
    proof {
        assert(width > u32::MAX ==> width * size > u32::MAX) by (nonlinear_arith)
            requires
                size >= 1,
        ;
        assert(height > u32::MAX ==> height * size > u32::MAX) by (nonlinear_arith)
            requires
                size >= 1,
        ;
    }
    if width > u32::MAX as usize || height > u32::MAX as usize {
        return false;
    }
    proof {
        assert(width * size <= 0xffff_ffff * 0xffff_ffff && height * size <= 0xffff_ffff
            * 0xffff_ffff) by (nonlinear_arith)
            requires
                width <= 0xffff_ffff,
                height <= 0xffff_ffff,
                size <= 0xffff_ffff,
        ;
    }
    let picture_width = width as u64 * size as u64;
    let picture_height = height as u64 * size as u64;
    if picture_width > u32::MAX as u64 || picture_height > u32::MAX as u64 {
        return false;
    }
    proof {
        assert(picture_width * picture_height <= 0xffff_ffff * 0xffff_ffff) by (nonlinear_arith)
            requires
                picture_width <= 0xffff_ffff,
                picture_height <= 0xffff_ffff,
        ;
    }
    picture_width as u128 * picture_height as u128 <= isize::MAX as u128
}

/// A grey-scale pixel buffer.
pub struct PixelBuffer {
    canvas: GrayCanvas,
}

impl View for PixelBuffer {
    type V = Raster;

    closed spec fn view(&self) -> Raster {
        Raster::from_fn(
            pixel_cols(self.canvas),
            pixel_rows(self.canvas).len(),
            |x: int, y: int| pixel_rows(self.canvas)[y][x],
        )
    }
}

impl PixelBuffer {
    /// The picture of a buffer holds a pixel for every place of its
    /// rectangle.
    pub proof fn lemma_view_wf(&self)
        ensures
            self@.wf(),
    {
    }

    /// A buffer of `width` by `height` pixels, all of them at zero.
    fn blank(width: u32, height: u32) -> (buffer: PixelBuffer)
        requires
            width * height <= isize::MAX,
        ensures
            buffer@.width == width,
            buffer@.height == height,
            forall|x: int, y: int| buffer@.contains(x, y) ==> #[trigger] buffer@.pixel(x, y) == 0,
    {
        PixelBuffer { canvas: GrayCanvas::new(width, height) }
    }

    /// Sets the pixel `(x, y)` to `value` and leaves every other pixel as it
    /// was.
    fn put(&mut self, x: u32, y: u32, value: u8)
        requires
            old(self)@.contains(x as int, y as int),
        ensures
            final(self)@ == old(self)@.with_pixel(x as int, y as int, value),
    {
        self.canvas.put_pixel(x, y, value);
        proof {
            let changed = old(self)@.with_pixel(x as int, y as int, value);
            lemma_with_pixel(old(self)@, x as int, y as int, value);
            lemma_raster_ext(self@, changed);
        }
    }

    /// The number of pixels in a row.
    pub fn width(&self) -> (width: u32)
        ensures
            width == self@.width,
    {
        self.canvas.width()
    }

    /// The number of rows.
    pub fn height(&self) -> (height: u32)
        ensures
            height == self@.height,
    {
        self.canvas.height()
    }

    /// The intensity of the pixel `(x, y)`.
    pub fn get(&self, x: u32, y: u32) -> (value: u8)
        requires
            self@.contains(x as int, y as int),
        ensures
            value == self@.pixel(x as int, y as int),
    {
        self.canvas.get_pixel(x, y)
    }

    /// The bytes of the buffer, one to a pixel, the rows one after another
    /// from the top: what an image encoder takes.
    pub fn into_raw(self) -> (bytes: Vec<u8>)
        ensures
            bytes@.len() == self@.width * self@.height,
            forall|x: int, y: int|
                self@.contains(x, y) ==> bytes@[y * self@.width + x] == #[trigger] self@.pixel(x, y),
    {
        self.canvas.into_raw()
    }
}

/// `with_pixel` changes the one pixel it names and nothing else.
pub proof fn lemma_with_pixel(r: Raster, x: int, y: int, value: u8)
    requires
        r.wf(),
        r.contains(x, y),
    ensures
        r.with_pixel(x, y, value).wf(),
        r.with_pixel(x, y, value).width == r.width,
        r.with_pixel(x, y, value).height == r.height,
        r.with_pixel(x, y, value).pixel(x, y) == value,
        forall|i: int, j: int|
            r.contains(i, j) && (i != x || j != y) ==> #[trigger] r.with_pixel(x, y, value).pixel(
                i,
                j,
            ) == r.pixel(i, j),
{
}

/// The pixel column `px` shows the cell column `x` exactly when it lies in
/// the `size` columns from `x * size` on. The same holds of rows.
pub proof fn lemma_cell_of_pixel(px: int, x: int, size: int)
    requires
        size > 0,
    ensures
        px / size == x <==> x * size <= px < x * size + size,
{
    assert(px / size == x <==> x * size <= px < x * size + size) by (nonlinear_arith)
        requires
            size > 0,
    ;
}

/// Paints the square of `size` by `size` pixels whose first corner is
/// `(x0, y0)` with `value`.
fn paint_block(buffer: &mut PixelBuffer, x0: u32, y0: u32, size: u32, value: u8)
    requires
        x0 + size <= old(buffer)@.width <= u32::MAX,
        y0 + size <= old(buffer)@.height <= u32::MAX,
    ensures
        final(buffer)@.width == old(buffer)@.width,
        final(buffer)@.height == old(buffer)@.height,
        forall|px: int, py: int|
            old(buffer)@.contains(px, py) ==> #[trigger] final(buffer)@.pixel(px, py) == if x0 <= px
                < x0 + size && y0 <= py < y0 + size {
                value
            } else {
                old(buffer)@.pixel(px, py)
            },
{
    let ghost before = buffer@;
    proof {
        buffer.lemma_view_wf();
    }
    let mut i: u32 = 0;
    while i < size
        invariant
            before.wf(),
            buffer@.width == before.width,
            buffer@.height == before.height,
            x0 + size <= before.width <= u32::MAX,
            y0 + size <= before.height <= u32::MAX,
            i <= size,
            forall|px: int, py: int|
                before.contains(px, py) ==> #[trigger] buffer@.pixel(px, py) == if x0 <= px < x0
                    + size && y0 <= py < y0 + i {
                    value
                } else {
                    before.pixel(px, py)
                },
        decreases size - i,
    {
        let mut j: u32 = 0;
        while j < size
            invariant
                before.wf(),
                buffer@.width == before.width,
                buffer@.height == before.height,
                x0 + size <= before.width <= u32::MAX,
                y0 + size <= before.height <= u32::MAX,
                i < size,
                j <= size,
                forall|px: int, py: int|
                    before.contains(px, py) ==> #[trigger] buffer@.pixel(px, py) == if (x0 <= px
                        < x0 + size && y0 <= py < y0 + i) || (x0 <= px < x0 + j && py == y0 + i) {
                        value
                    } else {
                        before.pixel(px, py)
                    },
            decreases size - j,
        {
            proof {
                buffer.lemma_view_wf();
                lemma_with_pixel(buffer@, x0 + j, y0 + i, value);
            }
            buffer.put(x0 + j, y0 + i, value);
            j += 1;
        }
        i += 1;
    }
}

/// Paints `grid` at `size` pixels to a cell's edge: the cell `(x, y)` becomes
/// the square of pixels from `(x * size, y * size)` on, all of them at the
/// intensity of its state.
pub fn rasterize(grid: &Grid, size: u32) -> (buffer: PixelBuffer)
    requires
        size >= 1,
        buffer_fits(grid@.width, grid@.height, size as nat),
    ensures
        buffer@ == render(grid@, size as nat),
{
    let width = grid.width();
    let height = grid.height();
    proof {
        assert(width <= width * size && height <= height * size) by (nonlinear_arith)
            requires
                size >= 1,
        ;
    }
    let mut buffer = PixelBuffer::blank(width as u32 * size, height as u32 * size);
    let mut y: usize = 0;
    while y < height
        invariant
            size >= 1,
            width == grid@.width,
            height == grid@.height,
            buffer@.width == width * size,
            buffer@.height == height * size,
            width <= buffer@.width <= u32::MAX,
            height <= buffer@.height <= u32::MAX,
            y <= height,
            forall|px: int, py: int|
                buffer@.contains(px, py) && py / (size as int) < y ==> #[trigger] buffer@.pixel(
                    px,
                    py,
                ) == intensity(grid@.alive(px / (size as int), py / (size as int))),
        decreases height - y,
    {
        let mut x: usize = 0;
        while x < width
            invariant
                size >= 1,
                width == grid@.width,
                height == grid@.height,
                buffer@.width == width * size,
                buffer@.height == height * size,
                width <= buffer@.width <= u32::MAX,
                height <= buffer@.height <= u32::MAX,
                y < height,
                x <= width,
                forall|px: int, py: int|
                    buffer@.contains(px, py) && (py / (size as int) < y || (py / (size as int) == y
                        && px / (size as int) < x)) ==> #[trigger] buffer@.pixel(px, py)
                        == intensity(grid@.alive(px / (size as int), py / (size as int))),
            decreases width - x,
        {
            let value = if grid.get(x, y) {
                LIVE_INTENSITY
            } else {
                DEAD_INTENSITY
            };
            proof {
                assert(0 <= x * size && x * size + size <= width * size && 0 <= y * size && y
                    * size + size <= height * size) by (nonlinear_arith)
                    requires
                        x < width,
                        y < height,
                ;
            }
            let ghost before = buffer@;
            paint_block(&mut buffer, x as u32 * size, y as u32 * size, size, value);
            proof {
                assert forall|px: int, py: int|
                    buffer@.contains(px, py) && (py / (size as int) < y || (py / (size as int) == y
                        && px / (size as int) < x + 1)) implies #[trigger] buffer@.pixel(px, py)
                    == intensity(grid@.alive(px / (size as int), py / (size as int))) by {
                    lemma_cell_of_pixel(px, x as int, size as int);
                    lemma_cell_of_pixel(py, y as int, size as int);
                }
            }
            x += 1;
        }
        proof {
            assert forall|px: int, py: int|
                buffer@.contains(px, py) && py / (size as int) < y + 1 implies #[trigger] buffer@.pixel(
                    px,
                    py,
                ) == intensity(grid@.alive(px / (size as int), py / (size as int))) by {
                lemma_cell_below(px, width as int, size as int);
            }
        }
        y += 1;
    }
    proof {
        let picture = render(grid@, size as nat);
        assert forall|px: int, py: int| buffer@.contains(px, py) implies buffer@.pixel(px, py)
            == picture.pixel(px, py) by {
            lemma_cell_below(py, height as int, size as int);
        }
        buffer.lemma_view_wf();
        lemma_raster_ext(buffer@, picture);
    }
    buffer
}

/// A pixel column within the first `width * size` shows one of the first
/// `width` cell columns. The same holds of rows.
pub proof fn lemma_cell_below(px: int, width: int, size: int)
    requires
        size > 0,
        0 <= px < width * size,
    ensures
        0 <= px / size < width,
{
    assert(0 <= px / size < width) by (nonlinear_arith)
        requires
            size > 0,
            0 <= px < width * size,
    ;
}

/// The pixel `(px, py)` lies in the square that shows the cell `(x, y)`.
pub open spec fn in_block(px: int, py: int, x: int, y: int, size: nat) -> bool {
    x * size <= px < x * size + size && y * size <= py < y * size + size
}

/// The picture of a board is as many times larger than the board as a cell's
/// edge is long, and well-formed.
pub proof fn lemma_render_size(board: Board, size: nat)
    ensures
        render(board, size).wf(),
        render(board, size).width == board.width * size,
        render(board, size).height == board.height * size,
{
}

/// The picture of a board without a live cell has every pixel at the dead
/// intensity.
pub proof fn lemma_blank_picture(width: nat, height: nat, size: nat)
    ensures
        forall|px: int, py: int|
            0 <= px < width * size && 0 <= py < height * size ==> #[trigger] render(
                Board::uniform(width, height, false),
                size,
            ).pixel(px, py) == DEAD_INTENSITY,
{
    let blank = Board::uniform(width, height, false);
    assert forall|px: int, py: int| 0 <= px < width * size && 0 <= py < height * size implies #[trigger] render(
        blank,
        size,
    ).pixel(px, py) == DEAD_INTENSITY by {
        assert(size > 0) by (nonlinear_arith)
            requires
                0 <= px < width * size,
        ;
        lemma_cell_below(px, width as int, size as int);
        lemma_cell_below(py, height as int, size as int);
    }
}

/// Changing one cell of a board changes, in its picture, the square that shows
/// this cell and no pixel outside it.
pub proof fn lemma_picture_of_changed_cell(board: Board, size: nat, x: int, y: int, value: bool)
    requires
        board.wf(),
        board.contains(x, y),
        size >= 1,
    ensures
        render(board.with_cell(x, y, value), size).width == render(board, size).width,
        render(board.with_cell(x, y, value), size).height == render(board, size).height,
        forall|px: int, py: int|
            render(board, size).contains(px, py) ==> #[trigger] render(
                board.with_cell(x, y, value),
                size,
            ).pixel(px, py) == if in_block(px, py, x, y, size) {
                intensity(value)
            } else {
                render(board, size).pixel(px, py)
            },
{
    let changed = board.with_cell(x, y, value);
    assert forall|px: int, py: int| render(board, size).contains(px, py) implies #[trigger] render(
        changed,
        size,
    ).pixel(px, py) == if in_block(px, py, x, y, size) {
        intensity(value)
    } else {
        render(board, size).pixel(px, py)
    } by {
        lemma_cell_below(px, board.width as int, size as int);
        lemma_cell_below(py, board.height as int, size as int);
        lemma_cell_of_pixel(px, x, size as int);
        lemma_cell_of_pixel(py, y, size as int);
        crate::board::lemma_with_cell(board, x, y, value);
    }
}

/// The picture of a board whose only live cell is `(x, y)` has the live
/// intensity in the square of this cell and the dead intensity everywhere
/// else.
pub proof fn lemma_picture_of_one_live_cell(width: nat, height: nat, size: nat, x: int, y: int)
    requires
        0 <= x < width,
        0 <= y < height,
        size >= 1,
    ensures
        forall|px: int, py: int|
            0 <= px < width * size && 0 <= py < height * size ==> #[trigger] render(
                Board::uniform(width, height, false).with_cell(x, y, true),
                size,
            ).pixel(px, py) == if in_block(px, py, x, y, size) {
                LIVE_INTENSITY
            } else {
                DEAD_INTENSITY
            },
{
    let blank = Board::uniform(width, height, false);
    lemma_blank_picture(width, height, size);
    lemma_picture_of_changed_cell(blank, size, x, y, true);
}

} // verus!
