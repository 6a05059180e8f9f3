//! The four placeholder patterns.
//!
//! A placeholder is a square of one tile, white where the pattern leaves it
//! blank. Which pattern a number selects depends on its remainder modulo
//! four: a chequerboard, a disc, diagonal stripes, or a grid of dots.

use vstd::prelude::*;
use crate::config;

verus! {

/// The colour of one pixel of a placeholder.
#[derive(Debug, Clone, Copy, PartialEq, Eq, Structural)]
pub enum Paint {
    White,
    Blue,
    Green,
    Red,
    Yellow,
}

/// The colour of the pixel in column `x` of row `y` of the pattern `id`.
///
/// Pattern 0 paints blue the squares of eight by eight pixels that lie on the
/// even diagonals. Pattern 1 paints green the pixels less than a third of the
/// tile width away from the centre. Pattern 2 paints red stripes eight pixels
/// wide across the diagonals. Pattern 3 paints a yellow dot of four by four
/// pixels every eight pixels.
pub open spec fn pattern_paint(id: int, x: int, y: int) -> Paint {
    let kind = id % 4;
    if kind == 0 {
        if (x / 8 + y / 8) % 2 == 0 {
            Paint::Blue
        } else {
            Paint::White
        }
    } else if kind == 1 {
        let dx = x - config::TILE_SIZE / 2;
        let dy = y - config::TILE_SIZE / 2;
        if 9 * (dx * dx + dy * dy) < config::TILE_SIZE * config::TILE_SIZE {
            Paint::Green
        } else {
            Paint::White
        }
    } else if kind == 2 {
        if (x + y) % 16 < 8 {
            Paint::Red
        } else {
            Paint::White
        }
    } else {
        if x % 8 < 4 && y % 8 < 4 {
            Paint::Yellow
        } else {
            Paint::White
        }
    }
}

/// Computes `pattern_paint`.
pub fn procedural_pixel(id: u32, x: u16, y: u16) -> (paint: Paint)
    ensures
        paint == pattern_paint(id as int, x as int, y as int),
{
    let kind = id % 4;
    if kind == 0 {
        if (x / 8 + y / 8) % 2 == 0 {
            Paint::Blue
        } else {
            Paint::White
        }
    } else if kind == 1 {
        let dx: i64 = x as i64 - (config::TILE_SIZE / 2) as i64;
        let dy: i64 = y as i64 - (config::TILE_SIZE / 2) as i64;
        assert(0 <= dx * dx <= 0x1_0000_0000 && 0 <= dy * dy <= 0x1_0000_0000) by (nonlinear_arith)
            requires
                -0x1_0000 <= dx <= 0x1_0000,
                -0x1_0000 <= dy <= 0x1_0000,
        ;
        let limit: i64 = (config::TILE_SIZE * config::TILE_SIZE) as i64;
        if 9 * (dx * dx + dy * dy) < limit {
            Paint::Green
        } else {
            Paint::White
        }
    } else if kind == 2 {
        if (x as u32 + y as u32) % 16 < 8 {
            Paint::Red
        } else {
            Paint::White
        }
    } else {
        if x % 8 < 4 && y % 8 < 4 {
            Paint::Yellow
        } else {
            Paint::White
        }
    }
}

/// The pixels of the placeholder pattern `id`, row by row.
pub fn generate_procedural_image(id: u32) -> (pixels: Vec<Paint>)
    ensures
        pixels@.len() == config::TILE_SIZE * config::TILE_SIZE,
        forall|x: int, y: int|
            0 <= x < config::TILE_SIZE && 0 <= y < config::TILE_SIZE ==> #[trigger] pixels@[y
                * config::TILE_SIZE + x] == pattern_paint(id as int, x, y),
{
    let size: u16 = 64;
    let mut pixels: Vec<Paint> = Vec::new();
    let mut y: u16 = 0;
    while y < size
        invariant
            size == config::TILE_SIZE,
            0 <= y <= size,
            pixels@.len() == y * size,
            forall|c: int, r: int|
                0 <= c < size && 0 <= r < y ==> #[trigger] pixels@[r * size + c] == pattern_paint(
                    id as int,
                    c,
                    r,
                ),
        decreases size - y,
    {
        let mut x: u16 = 0;
        while x < size
            invariant
                size == config::TILE_SIZE,
                0 <= y < size,
                0 <= x <= size,
                pixels@.len() == y * size + x,
                forall|c: int, r: int|
                    0 <= c < size && 0 <= r < y ==> #[trigger] pixels@[r * size + c]
                        == pattern_paint(id as int, c, r),
                forall|c: int|
                    0 <= c < x ==> #[trigger] pixels@[y * size + c] == pattern_paint(
                        id as int,
                        c,
                        y as int,
                    ),
            decreases size - x,
        {
            pixels.push(procedural_pixel(id, x, y));
            x += 1;
        }
        y += 1;
    }
    pixels
}

} // verus!
