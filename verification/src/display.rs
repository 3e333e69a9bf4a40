//! The geometry of the display: 64 by 32 cells, one byte each, row by row.

use vstd::prelude::*;

verus! {

/// The number of rows.
pub const HEIGHT: usize = 32;

/// The number of cells in a row.
pub const WIDTH: usize = 64;

/// The number of cells of a frame.
pub const CELLS: usize = 2048;

/// Where the cell in column `x` of row `y` stands in a frame.
pub open spec fn cell(x: int, y: int) -> int {
    x + y * 64
}

/// The picture of a frame as text.
pub struct Display;

impl Display {
    /// Whether the cell in column `x` of row `y` of `vram` is lit.
    pub fn lit(vram: &[u8], x: usize, y: usize) -> (on: bool)
        requires
            vram@.len() >= CELLS,
            x < WIDTH,
            y < HEIGHT,
        ensures
            on == (vram@[cell(x as int, y as int)] == 1),
    {
        vram[x + y * 64] == 1
    }
}

} // verus!
