use vstd::prelude::*;
use crate::cell::kind_hardness;
use crate::game::Game;

verus! {

/// Why a traced movement stopped.
#[derive(Debug, Clone, Copy, PartialEq, Eq, Structural)]
pub enum MoveStopBy {
    /// It reached its destination.
    Natural,
    /// It met a cell at least as hard as the threshold.
    Collision,
    /// It left the grid.
    Border,
}

impl Game {
    /// Whether grid position (i, j) stops a body of the given hardness
    /// threshold: an existing cell at least that hard, or, with
    /// `border_collision`, a position off the grid.
    pub open spec fn blocks(&self, i: int, j: int, hardness: int, border_collision: bool) -> bool {
        if self.spec_exists(i, j) {
            kind_hardness(self.spec_cell(i, j).kind) >= hardness
        } else {
            border_collision
        }
    }

    /// Whether some position of the `width` by `height` rectangle whose
    /// top-left position is (x, y) blocks.
    pub open spec fn spec_rect_collides(
        &self,
        x: int,
        y: int,
        width: int,
        height: int,
        hardness: int,
        border_collision: bool,
    ) -> bool {
        exists|i: int, j: int|
            x <= i < x + width && y <= j < y + height && #[trigger] self.blocks(
                i,
                j,
                hardness,
                border_collision,
            )
    }

    fn blocks_at(&self, i: i64, j: i64, hardness: i32, border_collision: bool) -> (r: bool)
        requires
            self.wf(),
        ensures
            r == self.blocks(i as int, j as int, hardness as int, border_collision),
    {
        if 0 <= i && i < self.width() as i64 && 0 <= j && j < self.height() as i64 {
            let cell = self.get_cell(i as i32, j as i32);
            (cell.kind.hardness() as i64) >= (hardness as i64)
        } else {
            border_collision
        }
    }

    /// Whether the rectangle of grid positions with top-left (x, y) and the
    /// given size overlaps a blocking position, scanning column by column
    /// and stopping at the first one found.
    pub fn rect_collides(
        &self,
        x: i32,
        y: i32,
        width: i32,
        height: i32,
        hardness: i32,
        border_collision: bool,
    ) -> (r: bool)
        requires
            self.wf(),
        ensures
            r == self.spec_rect_collides(
                x as int,
                y as int,
                width as int,
                height as int,
                hardness as int,
                border_collision,
            ),
    {
        let x_end: i64 = x as i64 + width as i64;
        let y_end: i64 = y as i64 + height as i64;
        let mut i: i64 = x as i64;
        while i < x_end
            invariant
                self.wf(),
                x_end == x + width,
                y_end == y + height,
                x <= i,
                i <= x_end || x_end < x,
                forall|a: int, b: int|
                    x <= a < i && y <= b < y_end ==> !#[trigger] self.blocks(
                        a,
                        b,
                        hardness as int,
                        border_collision,
                    ),
            decreases x_end - i,
        {
            let mut j: i64 = y as i64;
            while j < y_end
                invariant
                    self.wf(),
                    x_end == x + width,
                    y_end == y + height,
                    x <= i < x_end,
                    y <= j,
                    j <= y_end || y_end < y,
                    forall|a: int, b: int|
                        x <= a < i && y <= b < y_end ==> !#[trigger] self.blocks(
                            a,
                            b,
                            hardness as int,
                            border_collision,
                        ),
                    forall|b: int|
                        y <= b < j ==> !#[trigger] self.blocks(i as int, b, hardness as int, border_collision),
                decreases y_end - j,
            {
                if self.blocks_at(i, j, hardness, border_collision) {
                    return true;
                }
                j = j + 1;
            }
            i = i + 1;
        }
        false
    }

    /// The tracer's verdict on grid position (grid_x, grid_y): `Border` off
    /// the grid, `Collision` on a cell at least as hard as `hardness`, and
    /// none where the traced point may pass.
    pub fn probe(&self, grid_x: i64, grid_y: i64, hardness: i32) -> (r: Option<MoveStopBy>)
        requires
            self.wf(),
        ensures
            r == if !self.spec_exists(grid_x as int, grid_y as int) {
                Some(MoveStopBy::Border)
            } else if kind_hardness(self.spec_cell(grid_x as int, grid_y as int).kind) >= hardness {
                Some(MoveStopBy::Collision)
            } else {
                None::<MoveStopBy>
            },
    {
        if grid_x < 0 || grid_y < 0 || grid_x >= self.width() as i64 || grid_y >= self.height() as i64 {
            return Some(MoveStopBy::Border);
        }
        let cell = self.get_cell(grid_x as i32, grid_y as i32);
        if (cell.kind.hardness() as i64) >= (hardness as i64) {
            Some(MoveStopBy::Collision)
        } else {
            None
        }
    }
}

} // verus!
