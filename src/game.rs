use vstd::prelude::*;
use crate::cell::{Cell, Cells, Coords, spec_cell_of};
use crate::frame::{Action, Frame, action_valid, drained};
use crate::rules::{law_run_keeps_settled, law_sample_keeps_cells, queued, random_below, rule_action, run, settled};
use crate::frame::in_grid;

verus! {

/// The largest side a grid may have, so that every position on it can be
/// written as `Coords`.
pub const MAX_SIDE: u32 = 0x7fff_ffff;

/// A fixed-size grid of cells stored row-major.
pub struct Game {
    cells: Vec<Cell>,
    width: u32,
    height: u32,
    /// How many cells are sampled on each update.
    pub iteration: u32,
}

impl Game {
    pub closed spec fn spec_width(&self) -> nat {
        self.width as nat
    }

    pub closed spec fn spec_height(&self) -> nat {
        self.height as nat
    }

    pub closed spec fn spec_iteration(&self) -> u32 {
        self.iteration
    }

    /// The cells, row by row.
    pub closed spec fn spec_cells(&self) -> Seq<Cell> {
        self.cells@
    }

    /// The storage has one slot per position, and every position fits `Coords`.
    pub open spec fn wf(&self) -> bool {
        &&& self.spec_cells().len() == self.spec_width() * self.spec_height()
        &&& self.spec_width() * self.spec_height() <= u32::MAX
        &&& self.spec_width() <= MAX_SIDE
        &&& self.spec_height() <= MAX_SIDE
    }

    pub open spec fn spec_exists(&self, x: int, y: int) -> bool {
        0 <= x < self.spec_width() && 0 <= y < self.spec_height()
    }

    /// The slot of position (x, y).
    pub open spec fn spec_index(&self, x: int, y: int) -> int {
        y * self.spec_width() + x
    }

    pub open spec fn spec_cell(&self, x: int, y: int) -> Cell {
        self.spec_cells()[self.spec_index(x, y)]
    }

    pub open spec fn spec_try_get(&self, x: int, y: int) -> Option<Cell> {
        if self.spec_exists(x, y) {
            Some(self.spec_cell(x, y))
        } else {
            None
        }
    }

    /// `after` is `before` with position (x, y) holding `c` and all else kept.
    pub open spec fn written(before: &Game, after: &Game, x: int, y: int, c: Cell) -> bool {
        &&& after.spec_width() == before.spec_width()
        &&& after.spec_height() == before.spec_height()
        &&& after.spec_iteration() == before.spec_iteration()
        &&& after.spec_cells() == before.spec_cells().update(before.spec_index(x, y), c)
    }

    pub proof fn lemma_index_in_range(&self, x: int, y: int)
        requires
            self.wf(),
            self.spec_exists(x, y),
        ensures
            0 <= self.spec_index(x, y) < self.spec_cells().len(),
    {
        let w = self.spec_width() as int;
        let h = self.spec_height() as int;
        assert(y * w + x < w * h) by (nonlinear_arith)
            requires
                0 <= x < w,
                0 <= y < h,
        ;
        assert(0 <= y * w) by (nonlinear_arith)
            requires
                0 <= y,
                0 <= w,
        ;
    }

    /// A grid of `width` by `height` air cells, sampling a tenth of its area
    /// on each update.
    pub fn new(width: u32, height: u32) -> (g: Game)
        requires
            width * height <= u32::MAX,
            width <= MAX_SIDE,
            height <= MAX_SIDE,
        ensures
            g.wf(),
            g.spec_width() == width,
            g.spec_height() == height,
            g.spec_iteration() == width * height / 10,
            forall|i: int| 0 <= i < g.spec_cells().len() ==> g.spec_cells()[i] == spec_cell_of(Cells::Air),
    {
        let area: u32 = width * height;
        let mut cells: Vec<Cell> = Vec::new();
        let mut i: u32 = 0;
        while i < area
            invariant
                i <= area,
                cells@.len() == i,
                forall|j: int| 0 <= j < i ==> cells@[j] == spec_cell_of(Cells::Air),
            decreases area - i,
        {
            cells.push(Cell::default());
            i = i + 1;
        }
        Game { cells, width, height, iteration: area / 10 }
    }

    pub fn width(&self) -> (w: u32)
        ensures
            w == self.spec_width(),
    {
        self.width
    }

    pub fn height(&self) -> (h: u32)
        ensures
            h == self.spec_height(),
    {
        self.height
    }

    /// Whether (x, y) lies on the grid.
    pub fn cell_exists(&self, x: i32, y: i32) -> (r: bool)
        ensures
            r == self.spec_exists(x as int, y as int),
    {
        (x as i64) < (self.width as i64) && (y as i64) < (self.height as i64) && x >= 0 && y >= 0
    }

    fn slot(&self, x: i32, y: i32) -> (i: usize)
        requires
            self.wf(),
            self.spec_exists(x as int, y as int),
        ensures
            i as int == self.spec_index(x as int, y as int),
            i < self.spec_cells().len(),
    {
        proof {
            self.lemma_index_in_range(x as int, y as int);
        }
        (y as usize) * (self.width as usize) + (x as usize)
    }

    /// The cell at (x, y), if that position exists.
    pub fn try_get_cell(&self, x: i32, y: i32) -> (r: Option<&Cell>)
        requires
            self.wf(),
        ensures
            match r {
                Some(c) => self.spec_try_get(x as int, y as int) == Some(*c),
                None => self.spec_try_get(x as int, y as int) is None,
            },
    {
        if self.cell_exists(x, y) {
            let i = self.slot(x, y);
            Some(&self.cells[i])
        } else {
            None
        }
    }

    /// The cell at (x, y), which must exist.
    pub fn get_cell(&self, x: i32, y: i32) -> (r: &Cell)
        requires
            self.wf(),
            self.spec_exists(x as int, y as int),
        ensures
            *r == self.spec_cell(x as int, y as int),
    {
        let i = self.slot(x, y);
        &self.cells[i]
    }

    /// Writes `cell` at (x, y) if that position exists; does nothing otherwise.
    pub fn try_set_cell(&mut self, x: i32, y: i32, cell: Cell)
        requires
            old(self).wf(),
        ensures
            final(self).wf(),
            if old(self).spec_exists(x as int, y as int) {
                Game::written(old(self), final(self), x as int, y as int, cell)
            } else {
                *final(self) == *old(self)
            },
    {
        if self.cell_exists(x, y) {
            self.set_cell(x, y, cell);
        }
    }

    /// Writes `cell` at (x, y), which must exist.
    pub fn set_cell(&mut self, x: i32, y: i32, cell: Cell)
        requires
            old(self).wf(),
            old(self).spec_exists(x as int, y as int),
        ensures
            final(self).wf(),
            Game::written(old(self), final(self), x as int, y as int, cell),
    {
        let i = self.slot(x, y);
        self.cells.set(i, cell);
    }
}

impl Game {
    /// One scheduler sample at (x, y): runs the rule of the cell there and
    /// applies the frame at once.
    pub fn sample(&mut self, frame: &mut Frame, x: u32, y: u32, direction: u32)
        requires
            old(self).wf(),
            old(self).accepts(old(frame)@),
            x < old(self).spec_width(),
            y < old(self).spec_height(),
        ensures
            final(self).wf(),
            final(self).spec_width() == old(self).spec_width(),
            final(self).spec_height() == old(self).spec_height(),
            final(self).spec_iteration() == old(self).spec_iteration(),
            final(self).spec_cells() == drained(
                old(self).spec_cells(),
                old(self).spec_width(),
                old(self).spec_height(),
                queued(
                    old(frame)@,
                    rule_action(
                        old(self),
                        Coords { x: x as i32, y: y as i32 },
                        old(self).spec_cell(x as int, y as int),
                    ),
                ),
            ),
            final(frame)@ == Seq::<Action>::empty(),
    {
        let coords = Coords { x: x as i32, y: y as i32 };
        let cell = *self.get_cell(coords.x, coords.y);
        let ghost before = frame@;
        Cell::update_with(self, coords, &cell, direction, frame);
        assert(self.accepts(frame@)) by {
            assert forall|i: int| 0 <= i < frame@.len() implies action_valid(
                self.spec_width(),
                self.spec_height(),
                #[trigger] frame@[i],
            ) by {
                if i < before.len() {
                    assert(frame@[i] == before[i]);
                }
            }
        }
        self.apply_frame(frame);
    }

    /// Runs `iteration` samples at uniformly drawn positions, each applied
    /// before the next is drawn; the frame is left empty.
    pub fn update(&mut self, frame: &mut Frame)
        requires
            old(self).wf(),
            old(self).accepts(old(frame)@),
            old(self).spec_iteration() > 0 ==> old(self).spec_width() > 0 && old(self).spec_height() > 0,
        ensures
            final(self).wf(),
            final(self).spec_width() == old(self).spec_width(),
            final(self).spec_height() == old(self).spec_height(),
            final(self).spec_iteration() == old(self).spec_iteration(),
            old(self).spec_iteration() > 0 ==> final(frame)@ == Seq::<Action>::empty(),
            old(self).spec_iteration() == 0 ==> *final(self) == *old(self) && final(frame)@ == old(frame)@,
            old(frame)@.len() == 0 ==> final(self).spec_cells().to_multiset()
                == old(self).spec_cells().to_multiset(),
            old(frame)@.len() == 0 ==> exists|samples: Seq<Coords>|
                {
                    &&& samples.len() == old(self).spec_iteration()
                    &&& forall|k: int|
                        0 <= k < samples.len() ==> in_grid(
                            old(self).spec_width(),
                            old(self).spec_height(),
                            #[trigger] samples[k],
                        )
                    &&& final(self).spec_cells() == run(
                        old(self).spec_cells(),
                        old(self).spec_width(),
                        old(self).spec_height(),
                        samples,
                    )
                },
            old(frame)@.len() == 0 ==> forall|i: int|
                0 <= i < old(self).spec_cells().len() && settled(old(self).spec_cells(), old(self).spec_width(), i)
                    ==> #[trigger] final(self).spec_cells()[i] == old(self).spec_cells()[i],
    {
        let n = self.iteration;
        let mut k: u32 = 0;
        let ghost mut samples: Seq<Coords> = Seq::empty();
        while k < n
            invariant
                self.wf(),
                self.spec_width() == old(self).spec_width(),
                self.spec_height() == old(self).spec_height(),
                self.spec_iteration() == old(self).spec_iteration(),
                n == old(self).spec_iteration(),
                k <= n,
                n > 0 ==> self.spec_width() > 0 && self.spec_height() > 0,
                self.accepts(frame@),
                k > 0 ==> frame@ == Seq::<Action>::empty(),
                k == 0 ==> *self == *old(self) && frame@ == old(frame)@,
                old(frame)@.len() == 0 ==> self.spec_cells().to_multiset()
                    == old(self).spec_cells().to_multiset(),
                samples.len() == k,
                forall|i: int|
                    0 <= i < samples.len() ==> in_grid(
                        self.spec_width(),
                        self.spec_height(),
                        #[trigger] samples[i],
                    ),
                old(frame)@.len() == 0 ==> self.spec_cells() == run(
                    old(self).spec_cells(),
                    self.spec_width(),
                    self.spec_height(),
                    samples,
                ),
            decreases n - k,
        {
            let x = random_below(self.width());
            let y = random_below(self.height());
            let direction = random_below(2);
            let ghost before = *self;
            let ghost pending = frame@;
            self.sample(frame, x, y, direction);
            proof {
                if old(frame)@.len() == 0 {
                    assert(pending =~= Seq::<Action>::empty());
                    law_sample_keeps_cells(&before, Coords { x: x as i32, y: y as i32 });
                }
                let at = Coords { x: x as i32, y: y as i32 };
                let prev = samples;
                samples = samples.push(at);
                assert(samples.drop_last() =~= prev);
                assert(samples.last() == at);
            }
            k = k + 1;
        }
        assert(old(frame)@.len() == 0 ==> self.spec_cells() == run(
            old(self).spec_cells(),
            old(self).spec_width(),
            old(self).spec_height(),
            samples,
        ));
        proof {
            if old(frame)@.len() == 0 {
                assert forall|i: int|
                    0 <= i < old(self).spec_cells().len() && settled(
                        old(self).spec_cells(),
                        old(self).spec_width(),
                        i,
                    ) implies #[trigger] self.spec_cells()[i] == old(self).spec_cells()[i] by {
                    law_run_keeps_settled(
                        old(self).spec_cells(),
                        old(self).spec_width(),
                        old(self).spec_height(),
                        samples,
                        i,
                    );
                }
            }
        }
    }
}

/// A write at an existing position is read back unchanged through both
/// accessors, and leaves every other position as it was; a position off the
/// grid reads as absent.
pub proof fn law_set_then_get(before: Game, after: Game, x: int, y: int, c: Cell, x2: int, y2: int)
    requires
        before.wf(),
        before.spec_exists(x, y),
        Game::written(&before, &after, x, y, c),
    ensures
        after.wf(),
        after.spec_cell(x, y) == c,
        after.spec_try_get(x, y) == Some(c),
        before.spec_exists(x2, y2) && (x2 != x || y2 != y) ==> after.spec_try_get(x2, y2)
            == before.spec_try_get(x2, y2),
        !before.spec_exists(x2, y2) ==> after.spec_try_get(x2, y2) is None,
{
    before.lemma_index_in_range(x, y);
    if before.spec_exists(x2, y2) && (x2 != x || y2 != y) {
        before.lemma_index_in_range(x2, y2);
        let w = before.spec_width() as int;
        assert(y2 * w + x2 != y * w + x) by (nonlinear_arith)
            requires
                0 <= x < w,
                0 <= x2 < w,
                0 <= y,
                0 <= y2,
                x2 != x || y2 != y,
        {
            if y2 == y {
            } else if y2 < y {
                assert(y2 * w + w <= y * w);
            } else {
                assert(y * w + w <= y2 * w);
            }
        }
    }
}

} // verus!
