//! A simulated grayscale display: a grid of pixels that drawing fills and a
//! renderer reads.

use vstd::array::array_fill_for_copy_types;
use vstd::prelude::*;

verus! {

/// One pixel to draw: a place, which may lie outside every display, and a
/// shade of gray.
#[derive(Clone, Copy, Debug, PartialEq, Eq, Structural)]
pub struct Pixel {
    pub x: i32,
    pub y: i32,
    pub luma: u8,
}

/// Whether `grid` has a cell in column `x` of row `y`.
pub open spec fn holds(grid: Seq<Seq<u8>>, x: int, y: int) -> bool {
    0 <= y < grid.len() && 0 <= x < grid[y].len()
}

/// The grid after `pixel` was drawn on it: the cell at the pixel's place
/// has the pixel's shade; a pixel whose place is not on the grid changes
/// nothing.
pub open spec fn plotted(grid: Seq<Seq<u8>>, pixel: Pixel) -> Seq<Seq<u8>> {
    if holds(grid, pixel.x as int, pixel.y as int) {
        grid.update(pixel.y as int, grid[pixel.y as int].update(pixel.x as int, pixel.luma))
    } else {
        grid
    }
}

/// The grid after the pixels of `pixels` were drawn on it one after the
/// other.
pub open spec fn drawn(grid: Seq<Seq<u8>>, pixels: Seq<Pixel>) -> Seq<Seq<u8>>
    decreases pixels.len(),
{
    if pixels.len() == 0 {
        grid
    } else {
        plotted(drawn(grid, pixels.drop_last()), pixels.last())
    }
}

/// A grid of `rows` rows of `cols` cells that all hold `value`.
pub open spec fn filled(cols: nat, rows: nat, value: u8) -> Seq<Seq<u8>> {
    Seq::new(rows, |y: int| Seq::new(cols, |x: int| value))
}

/// Whether `grid` has `rows` rows of `cols` cells each.
pub open spec fn shaped(grid: Seq<Seq<u8>>, cols: nat, rows: nat) -> bool {
    grid.len() == rows && forall|y: int| 0 <= y < rows ==> (#[trigger] grid[y]).len() == cols
}

/// Drawing keeps the size of a grid.
pub proof fn lemma_plotted_keeps_shape(grid: Seq<Seq<u8>>, pixel: Pixel, cols: nat, rows: nat)
    requires
        shaped(grid, cols, rows),
    ensures
        shaped(plotted(grid, pixel), cols, rows),
{
}

/// A pixel whose place is not on the grid leaves the grid as it was.
pub proof fn lemma_pixel_outside_changes_nothing(
    grid: Seq<Seq<u8>>,
    pixel: Pixel,
    cols: nat,
    rows: nat,
)
    requires
        shaped(grid, cols, rows),
        !(0 <= pixel.x < cols && 0 <= pixel.y < rows),
    ensures
        plotted(grid, pixel) == grid,
{
}

/// A pixel whose place is on the grid sets the cell at that place, and
/// that cell only.
pub proof fn lemma_pixel_inside_sets_one_cell(
    grid: Seq<Seq<u8>>,
    pixel: Pixel,
    cols: nat,
    rows: nat,
)
    requires
        shaped(grid, cols, rows),
        0 <= pixel.x < cols,
        0 <= pixel.y < rows,
    ensures
        plotted(grid, pixel)[pixel.y as int][pixel.x as int] == pixel.luma,
        forall|x: int, y: int|
            0 <= x < cols && 0 <= y < rows && !(x == pixel.x && y == pixel.y) ==> plotted(
                grid,
                pixel,
            )[y][x] == grid[y][x],
{
}

/// Pixels of which none has its place on the grid leave the grid as it
/// was, however many they are.
pub proof fn lemma_pixels_outside_change_nothing(
    grid: Seq<Seq<u8>>,
    pixels: Seq<Pixel>,
    cols: nat,
    rows: nat,
)
    requires
        shaped(grid, cols, rows),
        forall|i: int|
            0 <= i < pixels.len() ==> !(0 <= (#[trigger] pixels[i]).x < cols && 0 <= pixels[i].y
                < rows),
    ensures
        drawn(grid, pixels) == grid,
    decreases pixels.len(),
{
    if pixels.len() > 0 {
        let front = pixels.drop_last();
        assert forall|i: int| 0 <= i < front.len() implies !(0 <= (#[trigger] front[i]).x < cols
            && 0 <= front[i].y < rows) by {
            assert(front[i] == pixels[i]);
        }
        lemma_pixels_outside_change_nothing(grid, front, cols, rows);
        lemma_pixel_outside_changes_nothing(grid, pixels.last(), cols, rows);
    }
}

/// A display of `ROWS` rows of `COLS` pixels. Its view is its frame buffer:
/// the rows from the top down, each from the left to the right.
pub struct Display<const COLS: usize, const ROWS: usize> {
    framebuffer: [[u8; COLS]; ROWS],
}

impl<const COLS: usize, const ROWS: usize> View for Display<COLS, ROWS> {
    type V = Seq<Seq<u8>>;

    closed spec fn view(&self) -> Seq<Seq<u8>> {
        Seq::new(ROWS as nat, |y: int| self.framebuffer@[y]@)
    }
}

impl<const COLS: usize, const ROWS: usize> Display<COLS, ROWS> {
    /// A display whose pixels are all black.
    pub fn new() -> (display: Self)
        ensures
            display@ == filled(COLS as nat, ROWS as nat, 0),
    {
        let row: [u8; COLS] = array_fill_for_copy_types(0u8);
        let display = Self { framebuffer: array_fill_for_copy_types(row) };
        assert(display@ =~~= filled(COLS as nat, ROWS as nat, 0));
        display
    }

    /// The number of columns and the number of rows, which are those of
    /// the frame buffer.
    pub fn size(&self) -> (size: (usize, usize))
        ensures
            size == (COLS, ROWS),
            shaped(self@, COLS as nat, ROWS as nat),
    {
        (COLS, ROWS)
    }

    /// The shade of the pixel in column `x` of row `y`, if the display has
    /// such a pixel.
    pub fn pixel(&self, x: usize, y: usize) -> (luma: Option<u8>)
        ensures
            luma == if x < COLS && y < ROWS {
                Some(self@[y as int][x as int])
            } else {
                None
            },
    {
        if x < COLS && y < ROWS {
            Some(self.framebuffer[y][x])
        } else {
            None
        }
    }

    /// The frame buffer, row by row.
    pub fn rows(&self) -> (rows: &[[u8; COLS]; ROWS])
        ensures
            forall|y: int| 0 <= y < ROWS ==> (#[trigger] rows@[y])@ == self@[y],
    {
        &self.framebuffer
    }

    /// Draws one pixel: overwrites the cell at its place, or does nothing
    /// where the place is not on the display.
    pub fn draw_pixel(&mut self, pixel: Pixel)
        ensures
            final(self)@ == plotted(old(self)@, pixel),
    {
        if pixel.x < 0 || pixel.y < 0 {
            return ;
        }
        let x = pixel.x as usize;
        let y = pixel.y as usize;
        if y < ROWS && x < COLS {
            self.framebuffer[y][x] = pixel.luma;
            assert(self@ =~~= plotted(old(self)@, pixel));
        }
    }

    /// Draws the pixels of `pixels` in their order. Those whose place is
    /// not on the display are passed over.
    pub fn draw_iter(&mut self, pixels: &[Pixel])
        ensures
            final(self)@ == drawn(old(self)@, pixels@),
    {
        let mut i: usize = 0;
        while i < pixels.len()
            invariant
                i <= pixels@.len(),
                self@ == drawn(old(self)@, pixels@.take(i as int)),
            decreases pixels@.len() - i,
        {
            self.draw_pixel(pixels[i]);
            proof {
                assert(pixels@.take(i + 1).drop_last() =~= pixels@.take(i as int));
            }
            i += 1;
        }
        assert(pixels@.take(i as int) =~= pixels@);
    }

    /// Sets every pixel to `value`.
    pub fn clear(&mut self, value: u8)
        ensures
            final(self)@ == filled(COLS as nat, ROWS as nat, value),
    {
        let row: [u8; COLS] = array_fill_for_copy_types(value);
        self.framebuffer = array_fill_for_copy_types(row);
        assert(self@ =~~= filled(COLS as nat, ROWS as nat, value));
    }
}

} // verus!
