//! The framebuffer: a grid of one-bit pixels and a dirty flag.
//!
//! The grid knows nothing of the surface it is shown on. For a presenter it
//! offers the list of squares to paint, one per pixel.

use crate::{HEIGHT, SCALE, WIDTH};
use vstd::prelude::*;

verus! {

/// A grid of pixel values by row, then column.
pub type Grid = Seq<Seq<usize>>;

/// Whether `grid` has `HEIGHT` rows of `WIDTH` pixels, each 0 or 1.
pub open spec fn grid_wf(grid: Grid) -> bool {
    &&& grid.len() == HEIGHT
    &&& forall|y: int| 0 <= y < HEIGHT ==> (#[trigger] grid[y]).len() == WIDTH
    &&& forall|y: int, x: int| 0 <= y < HEIGHT && 0 <= x < WIDTH ==> #[trigger] grid[y][x] <= 1
}

/// The grid that `pixels` holds.
pub open spec fn grid_of(pixels: Vec<Vec<usize>>) -> Grid {
    Seq::new(pixels.len() as nat, |y: int| pixels[y]@)
}

/// The grid in which no pixel is lit.
pub open spec fn blank_grid() -> Grid {
    Seq::new(HEIGHT as nat, |y: int| Seq::new(WIDTH as nat, |x: int| 0usize))
}

/// `grid` with the pixel in column `x` of row `y` replaced by `v`.
pub open spec fn grid_with(grid: Grid, x: int, y: int, v: usize) -> Grid {
    grid.update(y, grid[y].update(x, v))
}

/// The other pixel value.
pub open spec fn flipped(v: usize) -> usize {
    if v == 0 {
        1
    } else {
        0
    }
}

/// One square for a presenter to paint: its top left corner, its sides, and
/// whether it is painted in the foreground colour.
#[derive(Clone, Copy, Debug, PartialEq, Eq, Structural)]
pub struct Cell {
    pub x: i32,
    pub y: i32,
    pub width: u32,
    pub height: u32,
    pub lit: bool,
}

/// The square that presents the pixel in column `x` of row `y` of `grid`.
pub open spec fn cell_of(grid: Grid, x: int, y: int) -> Cell {
    Cell {
        x: (x * SCALE) as i32,
        y: (y * SCALE) as i32,
        width: SCALE as u32,
        height: SCALE as u32,
        lit: grid[y][x] > 0,
    }
}

/// The pixel state of the machine, with a flag that records unpresented changes.
pub struct Screen {
    pub width: usize,
    pub height: usize,
    pub pixels: Vec<Vec<usize>>,
    pub update_screen: bool,
}

impl View for Screen {
    type V = Grid;

    open spec fn view(&self) -> Grid {
        grid_of(self.pixels)
    }
}

impl Screen {
    /// The dimensions are the fixed ones and the pixels form a grid of bits.
    pub open spec fn wf(&self) -> bool {
        &&& self.width == WIDTH
        &&& self.height == HEIGHT
        &&& self.pixels.len() == HEIGHT
        &&& forall|y: int| 0 <= y < HEIGHT ==> (#[trigger] self.pixels[y]).len() == WIDTH
        &&& forall|y: int, x: int|
            0 <= y < HEIGHT && 0 <= x < WIDTH ==> #[trigger] self.pixels[y][x] <= 1
    }

    /// The pixels of a well-formed framebuffer form a well-formed grid.
    pub proof fn lemma_wf_grid(&self)
        requires
            self.wf(),
        ensures
            grid_wf(self@),
    {
    }

    /// A blank framebuffer with nothing to present.
    pub fn new() -> (s: Screen)
        ensures
            s.wf(),
            s@ == blank_grid(),
            !s.update_screen,
    {
        let row: Vec<usize> = vec![0usize; WIDTH];
        let pixels: Vec<Vec<usize>> = vec![row; HEIGHT];
        let s = Screen { width: WIDTH, height: HEIGHT, pixels, update_screen: false };
        assert(s@ =~~= blank_grid());
        s
    }

    /// Width of the presented picture.
    pub fn get_scaled_width(&self) -> (w: u32)
        requires
            self.wf(),
        ensures
            w == WIDTH * SCALE,
    {
        (self.width * SCALE) as u32
    }

    /// Height of the presented picture.
    pub fn get_scaled_height(&self) -> (h: u32)
        requires
            self.wf(),
        ensures
            h == HEIGHT * SCALE,
    {
        (self.height * SCALE) as u32
    }

    /// The pixel in column `x` of row `y`.
    pub fn get_pixel(&self, x: usize, y: usize) -> (v: usize)
        requires
            self.wf(),
            x < WIDTH,
            y < HEIGHT,
        ensures
            v == self@[y as int][x as int],
            v <= 1,
    {
        self.pixels[y][x]
    }

    /// Flips the pixel in column `x` of row `y`.
    pub fn update_pixel(&mut self, x: usize, y: usize)
        requires
            old(self).wf(),
            x < WIDTH,
            y < HEIGHT,
        ensures
            final(self).wf(),
            final(self)@ == grid_with(
                old(self)@,
                x as int,
                y as int,
                flipped(old(self)@[y as int][x as int]),
            ),
            final(self).update_screen == old(self).update_screen,
    {
        let v: usize = self.pixels[y][x];
        self.pixels[y][x] = v ^ 1;
        assert(v ^ 1 == flipped(v)) by (bit_vector)
            requires
                v <= 1,
        ;
        assert(self@ =~~= grid_with(
            old(self)@,
            x as int,
            y as int,
            flipped(old(self)@[y as int][x as int]),
        ));
    }

    /// Overwrites the pixel in column `x` of row `y` with `v`.
    pub fn set_pixel(&mut self, x: usize, y: usize, v: usize)
        requires
            old(self).wf(),
            x < WIDTH,
            y < HEIGHT,
            v <= 1,
        ensures
            final(self).wf(),
            final(self)@ == grid_with(old(self)@, x as int, y as int, v),
            final(self).update_screen == old(self).update_screen,
    {
        self.pixels[y][x] = v;
        assert(self@ =~~= grid_with(old(self)@, x as int, y as int, v));
    }

    /// Lights the four corner pixels.
    pub fn four_corners(&mut self)
        requires
            old(self).wf(),
        ensures
            final(self).wf(),
            final(self)@ == grid_with(
                grid_with(
                    grid_with(grid_with(old(self)@, 0, 0, 1), WIDTH - 1, HEIGHT - 1, 1),
                    WIDTH - 1,
                    0,
                    1,
                ),
                0,
                HEIGHT - 1,
                1,
            ),
            final(self).update_screen == old(self).update_screen,
    {
        self.set_pixel(0, 0, 1);
        self.set_pixel(WIDTH - 1, HEIGHT - 1, 1);
        self.set_pixel(WIDTH - 1, 0, 1);
        self.set_pixel(0, HEIGHT - 1, 1);
    }

    /// Puts out every pixel and marks the framebuffer as changed.
    pub fn clear(&mut self)
        requires
            old(self).wf(),
        ensures
            final(self).wf(),
            final(self)@ == blank_grid(),
            final(self).update_screen,
    {
        let mut x: usize = 0;
        while x < WIDTH
            invariant
                x <= WIDTH,
                self.wf(),
                forall|i: int, j: int| 0 <= i < x && 0 <= j < HEIGHT ==> self@[j][i] == 0,
            decreases WIDTH - x,
        {
            let mut y: usize = 0;
            while y < HEIGHT
                invariant
                    x < WIDTH,
                    y <= HEIGHT,
                    self.wf(),
                    forall|i: int, j: int| 0 <= i < x && 0 <= j < HEIGHT ==> self@[j][i] == 0,
                    forall|j: int| 0 <= j < y ==> self@[j][x as int] == 0,
                decreases HEIGHT - y,
            {
                self.set_pixel(x, y, 0);
                y += 1;
            }
            x += 1;
        }
        proof {
            self.lemma_wf_grid();
            assert forall|y: int| 0 <= y < HEIGHT implies #[trigger] self@[y] == blank_grid()[y] by {
                assert(self@[y] =~= blank_grid()[y]);
            }
            assert(self@ =~= blank_grid());
        }
        self.update_screen = true;
    }

    /// The squares that present the framebuffer, column by column and in each
    /// column from the top row down.
    pub fn draw(&self) -> (cells: Vec<Cell>)
        requires
            self.wf(),
        ensures
            cells.len() == WIDTH * HEIGHT,
            forall|x: int, y: int|
                0 <= x < WIDTH && 0 <= y < HEIGHT ==> cells[x * HEIGHT + y] == cell_of(
                    self@,
                    x,
                    y,
                ),
    {
        let mut cells: Vec<Cell> = Vec::new();
        let mut x: usize = 0;
        while x < self.width
            invariant
                x <= WIDTH,
                self.wf(),
                cells.len() == x * HEIGHT,
                forall|i: int, j: int|
                    0 <= i < x && 0 <= j < HEIGHT ==> cells[i * HEIGHT + j] == cell_of(
                        self@,
                        i,
                        j,
                    ),
            decreases WIDTH - x,
        {
            let mut y: usize = 0;
            while y < self.height
                invariant
                    x < WIDTH,
                    y <= HEIGHT,
                    self.wf(),
                    cells.len() == x * HEIGHT + y,
                    forall|i: int, j: int|
                        0 <= i < x && 0 <= j < HEIGHT ==> cells[i * HEIGHT + j] == cell_of(
                            self@,
                            i,
                            j,
                        ),
                    forall|j: int| 0 <= j < y ==> cells[x * HEIGHT + j] == cell_of(self@, x as int, j),
                decreases HEIGHT - y,
            {
                let v: usize = self.pixels[y][x];
                cells.push(
                    Cell {
                        x: (x * SCALE) as i32,
                        y: (y * SCALE) as i32,
                        width: SCALE as u32,
                        height: SCALE as u32,
                        lit: v > 0,
                    },
                );
                y += 1;
            }
            x += 1;
        }
        cells
    }
}

} // verus!
