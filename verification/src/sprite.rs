//! What drawing a sprite does to a grid of pixels.
//!
//! A sprite is a sequence of rows of eight bits, the highest bit leftmost.
//! It is drawn with its top left corner at an origin inside the grid; bits
//! that would fall off the right or the bottom edge wrap around to the left
//! or the top. Each set bit flips the pixel under it. The draw collides when
//! one of these pixels was lit before.

use crate::memory::MEM_SIZE;
use crate::screen::{flipped, grid_wf, grid_with, Grid};
use crate::{HEIGHT, WIDTH};
use vstd::prelude::*;

verus! {

/// Whether bit `b` of `row` is set, bit 0 being the highest.
pub open spec fn sprite_bit(row: u8, b: int) -> bool {
    row & (0x80u8 >> (b as u8)) != 0
}

/// The `n` bytes of `memory` from address `i` on, wrapping at its end.
pub open spec fn sprite_rows(memory: Seq<u8>, i: int, n: int) -> Seq<u8> {
    Seq::new(n as nat, |r: int| memory[(i + r) % (MEM_SIZE as int)])
}

/// Whether one of the first `k` bits of the sprite, counted row by row and
/// in each row from the left, is set and lies on the pixel (`px`, `py`)
/// when the sprite is drawn at (`vx`, `vy`).
pub open spec fn covers_before(rows: Seq<u8>, vx: int, vy: int, k: int, px: int, py: int) -> bool {
    let b = (px - vx) % (WIDTH as int);
    let r = (py - vy) % (HEIGHT as int);
    b < 8 && r < rows.len() && 8 * r + b < k && sprite_bit(rows[r], b)
}

/// Whether a set bit of the sprite lies on the pixel (`px`, `py`).
pub open spec fn covers(rows: Seq<u8>, vx: int, vy: int, px: int, py: int) -> bool {
    covers_before(rows, vx, vy, 8 * (rows.len() as int), px, py)
}

/// `grid` after the first `k` bits of the sprite were drawn.
pub open spec fn blit_before(grid: Grid, rows: Seq<u8>, vx: int, vy: int, k: int) -> Grid {
    Seq::new(
        HEIGHT as nat,
        |py: int|
            Seq::new(
                WIDTH as nat,
                |px: int|
                    if covers_before(rows, vx, vy, k, px, py) {
                        flipped(grid[py][px])
                    } else {
                        grid[py][px]
                    },
            ),
    )
}

/// `grid` after the sprite was drawn at (`vx`, `vy`).
pub open spec fn blit(grid: Grid, rows: Seq<u8>, vx: int, vy: int) -> Grid {
    blit_before(grid, rows, vx, vy, 8 * (rows.len() as int))
}

/// Whether (`px`, `py`) is a pixel that is lit in `grid` and lies under a
/// set bit among the first `k` bits of the sprite.
pub open spec fn hit_before(
    grid: Grid,
    rows: Seq<u8>,
    vx: int,
    vy: int,
    k: int,
    px: int,
    py: int,
) -> bool {
    &&& 0 <= px < WIDTH
    &&& 0 <= py < HEIGHT
    &&& covers_before(rows, vx, vy, k, px, py)
    &&& grid[py][px] == 1
}

/// Whether drawing the first `k` bits of the sprite flips a lit pixel.
pub open spec fn collides_before(grid: Grid, rows: Seq<u8>, vx: int, vy: int, k: int) -> bool {
    exists|px: int, py: int| #[trigger] hit_before(grid, rows, vx, vy, k, px, py)
}

/// Whether drawing the sprite at (`vx`, `vy`) flips a pixel that is lit in `grid`.
pub open spec fn collides(grid: Grid, rows: Seq<u8>, vx: int, vy: int) -> bool {
    collides_before(grid, rows, vx, vy, 8 * (rows.len() as int))
}

/// Drawing bit `b` of row `r` after the bits before it: the pixel under it
/// is still as it was in `grid`; it is flipped if the bit is set, and
/// nothing else changes; and the draw so far collides if it did before or
/// if this pixel was lit.
pub proof fn lemma_draw_bit(grid: Grid, rows: Seq<u8>, vx: int, vy: int, r: int, b: int)
    requires
        grid_wf(grid),
        rows.len() < 16,
        0 <= vx < WIDTH,
        0 <= vy < HEIGHT,
        0 <= r < rows.len(),
        0 <= b < 8,
    ensures
        ({
            let k = 8 * r + b;
            let tx = (vx + b) % (WIDTH as int);
            let ty = (vy + r) % (HEIGHT as int);
            let set = sprite_bit(rows[r], b);
            let before = blit_before(grid, rows, vx, vy, k);
            &&& before[ty][tx] == grid[ty][tx]
            &&& blit_before(grid, rows, vx, vy, k + 1) == if set {
                grid_with(before, tx, ty, flipped(grid[ty][tx]))
            } else {
                before
            }
            &&& collides_before(grid, rows, vx, vy, k + 1) == (collides_before(
                grid,
                rows,
                vx,
                vy,
                k,
            ) || (set && grid[ty][tx] == 1))
        }),
{
    let k = 8 * r + b;
    let tx = (vx + b) % (WIDTH as int);
    let ty = (vy + r) % (HEIGHT as int);
    let set = sprite_bit(rows[r], b);
    let before = blit_before(grid, rows, vx, vy, k);
    let after = blit_before(grid, rows, vx, vy, k + 1);
    let target = if set {
        grid_with(before, tx, ty, flipped(grid[ty][tx]))
    } else {
        before
    };
    assert((tx - vx) % (WIDTH as int) == b);
    assert((ty - vy) % (HEIGHT as int) == r);
    assert forall|px: int, py: int| 0 <= px < WIDTH && 0 <= py < HEIGHT implies (covers_before(
        rows,
        vx,
        vy,
        k + 1,
        px,
        py,
    ) <==> covers_before(rows, vx, vy, k, px, py) || (set && px == tx && py == ty)) by {
        let pb = (px - vx) % (WIDTH as int);
        let pr = (py - vy) % (HEIGHT as int);
        if pb == b && pr == r {
            assert(px == tx);
            assert(py == ty);
        }
    }
    assert forall|py: int| 0 <= py < HEIGHT implies #[trigger] after[py] == target[py] by {
        assert(after[py] =~= target[py]);
    }
    assert(after =~= target);
    if collides_before(grid, rows, vx, vy, k + 1) {
        let (px, py) = choose|px: int, py: int| #[trigger]
            hit_before(grid, rows, vx, vy, k + 1, px, py);
        if !(set && px == tx && py == ty) {
            assert(hit_before(grid, rows, vx, vy, k, px, py));
        }
    }
    if collides_before(grid, rows, vx, vy, k) {
        let (px, py) = choose|px: int, py: int| #[trigger]
            hit_before(grid, rows, vx, vy, k, px, py);
        assert(hit_before(grid, rows, vx, vy, k + 1, px, py));
    }
    if set && grid[ty][tx] == 1 {
        assert(hit_before(grid, rows, vx, vy, k + 1, tx, ty));
    }
}

/// Before any bit is drawn the grid is unchanged and nothing collided.
pub proof fn lemma_draw_nothing(grid: Grid, rows: Seq<u8>, vx: int, vy: int)
    requires
        grid_wf(grid),
    ensures
        blit_before(grid, rows, vx, vy, 0) == grid,
        !collides_before(grid, rows, vx, vy, 0),
{
    let before = blit_before(grid, rows, vx, vy, 0);
    assert forall|py: int| 0 <= py < HEIGHT implies #[trigger] before[py] == grid[py] by {
        assert(before[py] =~= grid[py]);
    }
    assert(before =~= grid);
}

/// Drawing a sprite twice at one place restores every pixel.
pub proof fn lemma_blit_twice(grid: Grid, rows: Seq<u8>, vx: int, vy: int)
    requires
        grid_wf(grid),
    ensures
        blit(blit(grid, rows, vx, vy), rows, vx, vy) == grid,
{
    let once = blit(grid, rows, vx, vy);
    let twice = blit(once, rows, vx, vy);
    assert forall|py: int| 0 <= py < HEIGHT implies #[trigger] twice[py] == grid[py] by {
        assert(twice[py] =~= grid[py]);
    }
    assert(twice =~= grid);
}

/// The second of two draws of a sprite at one place collides exactly if the
/// first one lit a pixel: if a set bit of the sprite lies on a pixel that
/// was dark before the first draw.
pub proof fn lemma_second_draw_collides(grid: Grid, rows: Seq<u8>, vx: int, vy: int)
    requires
        grid_wf(grid),
    ensures
        collides(blit(grid, rows, vx, vy), rows, vx, vy) <==> exists|px: int, py: int|
            0 <= px < WIDTH && 0 <= py < HEIGHT && #[trigger] covers(rows, vx, vy, px, py)
                && grid[py][px] == 0,
{
    let once = blit(grid, rows, vx, vy);
    let k = 8 * (rows.len() as int);
    if collides(once, rows, vx, vy) {
        let (px, py) = choose|px: int, py: int| #[trigger]
            hit_before(once, rows, vx, vy, k, px, py);
        assert(covers(rows, vx, vy, px, py) && grid[py][px] == 0);
    }
    if exists|px: int, py: int|
        0 <= px < WIDTH && 0 <= py < HEIGHT && #[trigger] covers(rows, vx, vy, px, py)
            && grid[py][px] == 0 {
        let (px, py) = choose|px: int, py: int|
            0 <= px < WIDTH && 0 <= py < HEIGHT && #[trigger] covers(rows, vx, vy, px, py)
                && grid[py][px] == 0;
        assert(hit_before(once, rows, vx, vy, k, px, py));
    }
}

} // verus!
