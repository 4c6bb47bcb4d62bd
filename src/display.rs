use vstd::prelude::*;

verus! {

/// Width of the screen in pixels.
pub const WIDTH: usize = 64;

/// Height of the screen in pixels.
pub const HEIGHT: usize = 32;

/// The monochrome screen: one byte per pixel (0 or 1), row by row, and a
/// flag telling the presenter that the grid changed since it last drew it.
pub struct Display {
    pub memory: [[u8; 64]; 32],
    pub draw_flag: bool,
}

impl Display {
    /// The value held at column `x` of row `y`.
    pub open spec fn cell(&self, x: int, y: int) -> u8 {
        self.memory@[y]@[x]
    }

    /// Every pixel of the grid is off.
    pub open spec fn is_blank(&self) -> bool {
        forall|x: int, y: int|
            0 <= x < WIDTH && 0 <= y < HEIGHT ==> #[trigger] self.cell(x, y) == 0
    }

    /// The grid of `self` is that of `other` with the cell at (`x`, `y`)
    /// replaced by `b`.
    pub open spec fn grid_updated(&self, other: &Display, x: int, y: int, b: u8) -> bool {
        forall|cx: int, cy: int|
            0 <= cx < WIDTH && 0 <= cy < HEIGHT ==> #[trigger] self.cell(cx, cy) == (if cx == x
                && cy == y {
                b
            } else {
                other.cell(cx, cy)
            })
    }

    /// A blank screen that has nothing to repaint.
    pub fn new() -> (r: Display)
        ensures
            r.is_blank(),
            !r.draw_flag,
    {
        Display { memory: [[0u8; 64]; 32], draw_flag: false }
    }

    /// Turns the pixel at (`x`, `y`) on or off and marks the screen for repaint.
    pub fn set_pixel(&mut self, x: usize, y: usize, on: bool)
        requires
            x < WIDTH,
            y < HEIGHT,
        ensures
            final(self).grid_updated(old(self), x as int, y as int, if on { 1u8 } else { 0u8 }),
            final(self).draw_flag,
    {
        let mut row = self.memory[y];
        row[x] = if on { 1 } else { 0 };
        self.memory[y] = row;
        self.draw_flag = true;
    }

    /// Whether the pixel at (`x`, `y`) is on.
    pub fn get_pixel(&self, x: usize, y: usize) -> (r: bool)
        requires
            x < WIDTH,
            y < HEIGHT,
        ensures
            r == (self.cell(x as int, y as int) == 1),
    {
        self.memory[y][x] == 1
    }

    /// Turns every pixel off and marks the screen for repaint.
    pub fn cls(&mut self)
        ensures
            final(self).is_blank(),
            final(self).draw_flag,
    {
        self.memory = [[0u8; 64]; 32];
        self.draw_flag = true;
    }
}

} // verus!
