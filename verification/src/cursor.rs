use vstd::prelude::*;

use vstd::arithmetic::div_mod::{
    lemma_div_is_ordered, lemma_fundamental_div_mod, lemma_fundamental_div_mod_converse,
    lemma_mod_division_less_than_divisor,
};

verus! {

/// A send loop's local position in the grid. `x` stays below the grid
/// width; `y` grows freely and may run past the nominal grid height on
/// trailing chunks.
#[derive(Clone, Copy, Debug, PartialEq, Eq, Structural)]
pub struct Cursor {
    pub x: u16,
    pub y: u16,
}

/// Column of the cell `steps` positions after a start column `sx`,
/// wrapping rows at width `w`.
pub open spec fn cursor_x_at(sx: int, w: int, steps: int) -> int {
    (sx + steps) % w
}

/// Row of the cell `steps` positions after start `(sx, sy)`, wrapping
/// rows at width `w`.
pub open spec fn cursor_y_at(sx: int, sy: int, w: int, steps: int) -> int {
    sy + (sx + steps) / w
}

/// One advance step keeps the closed forms in lockstep: when the column
/// has room it moves right with the row unchanged, and at the end of a
/// row it returns to column zero on the next row. The column always
/// stays inside the row.
pub proof fn lemma_cursor_step(sx: int, sy: int, w: int, steps: int)
    requires
        w > 0,
        sx >= 0,
        steps >= 0,
    ensures
        0 <= cursor_x_at(sx, w, steps) < w,
        cursor_x_at(sx, w, steps) + 1 < w ==> {
            &&& cursor_x_at(sx, w, steps + 1) == cursor_x_at(sx, w, steps) + 1
            &&& cursor_y_at(sx, sy, w, steps + 1) == cursor_y_at(sx, sy, w, steps)
        },
        cursor_x_at(sx, w, steps) + 1 == w ==> {
            &&& cursor_x_at(sx, w, steps + 1) == 0
            &&& cursor_y_at(sx, sy, w, steps + 1) == cursor_y_at(sx, sy, w, steps) + 1
        },
{
    let a = sx + steps;
    lemma_fundamental_div_mod(a, w);
    lemma_mod_division_less_than_divisor(a, w);
    if a % w + 1 < w {
        assert(a + 1 == (a / w) * w + (a % w + 1)) by (nonlinear_arith)
            requires
                a == w * (a / w) + a % w,
        ;
        lemma_fundamental_div_mod_converse(a + 1, w, a / w, a % w + 1);
    } else {
        assert(a + 1 == (a / w + 1) * w + 0) by (nonlinear_arith)
            requires
                a == w * (a / w) + a % w,
                a % w + 1 == w,
        ;
        lemma_fundamental_div_mod_converse(a + 1, w, a / w + 1, 0);
    }
}

/// The row never moves backwards as the cursor advances.
pub proof fn lemma_cursor_y_monotonic(sx: int, sy: int, w: int, i: int, j: int)
    requires
        w > 0,
        sx >= 0,
        0 <= i <= j,
    ensures
        cursor_y_at(sx, sy, w, i) <= cursor_y_at(sx, sy, w, j),
{
    lemma_div_is_ordered(sx + i, sx + j, w);
}

impl Cursor {
    /// Moves one cell to the right, wrapping to the start of the next
    /// row when the column reaches the grid width.
    pub fn advance(&self, width: u16) -> (n: Cursor)
        requires
            width > 0,
            self.x < width,
            self.x + 1 == width ==> self.y < 0xFFFF,
        ensures
            self.x + 1 < width ==> n == (Cursor { x: (self.x + 1) as u16, y: self.y }),
            self.x + 1 == width ==> n == (Cursor { x: 0u16, y: (self.y + 1) as u16 }),
            n.x < width,
    {
        let x = self.x + 1;
        if x >= width {
            Cursor { x: 0, y: self.y + 1 }
        } else {
            Cursor { x, y: self.y }
        }
    }
}

} // verus!
