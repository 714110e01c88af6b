use vstd::prelude::*;
use crate::cell::{Cell, Cells, ColorMode, Coords, spec_cell_of};
use crate::game::Game;

verus! {

/// A change to a single cell.
#[derive(Debug, Clone, Copy, PartialEq, Eq, Structural)]
pub enum CellAction {
    /// Replace the whole cell; ignored where the position does not exist.
    Replace(Cell),
    /// Change only the cell's kind, keeping its color mode.
    SetKind(Cells),
    /// Replace only the color mode.
    SetColorMode(ColorMode),
    /// Reset the cell to the default air cell.
    Clear,
}

/// A pending grid mutation.
#[derive(Debug, Clone, Copy, PartialEq, Eq, Structural)]
pub enum Action {
    Cell(Coords, CellAction),
    Swap(Coords, Coords),
}

pub open spec fn in_grid(w: nat, h: nat, c: Coords) -> bool {
    0 <= c.x < w && 0 <= c.y < h
}

pub open spec fn slot_of(w: nat, c: Coords) -> int {
    c.y * w + c.x
}

/// Whether an action may be applied to a `w` by `h` grid: every variant but
/// a whole-cell `Replace` needs its positions to exist.
pub open spec fn action_valid(w: nat, h: nat, a: Action) -> bool {
    match a {
        Action::Cell(c, CellAction::Replace(_)) => true,
        Action::Cell(c, _) => in_grid(w, h, c),
        Action::Swap(p, q) => in_grid(w, h, p) && in_grid(w, h, q),
    }
}

pub open spec fn actions_valid(w: nat, h: nat, pending: Seq<Action>) -> bool {
    forall|i: int| 0 <= i < pending.len() ==> action_valid(w, h, #[trigger] pending[i])
}

/// The cells of a `w` by `h` grid after one action.
pub open spec fn apply_action(cells: Seq<Cell>, w: nat, h: nat, a: Action) -> Seq<Cell> {
    match a {
        Action::Cell(c, ca) => match ca {
            CellAction::Replace(cell) => if in_grid(w, h, c) {
                cells.update(slot_of(w, c), cell)
            } else {
                cells
            },
            CellAction::SetKind(k) => cells.update(
                slot_of(w, c),
                Cell { kind: k, color_mode: cells[slot_of(w, c)].color_mode },
            ),
            CellAction::SetColorMode(m) => cells.update(
                slot_of(w, c),
                Cell { kind: cells[slot_of(w, c)].kind, color_mode: m },
            ),
            CellAction::Clear => cells.update(slot_of(w, c), spec_cell_of(Cells::Air)),
        },
        Action::Swap(p, q) => cells.update(slot_of(w, p), cells[slot_of(w, q)]).update(
            slot_of(w, q),
            cells[slot_of(w, p)],
        ),
    }
}

/// The cells after draining `pending` last-in first-out.
pub open spec fn drained(cells: Seq<Cell>, w: nat, h: nat, pending: Seq<Action>) -> Seq<Cell>
    decreases pending.len(),
{
    if pending.len() == 0 {
        cells
    } else {
        drained(apply_action(cells, w, h, pending.last()), w, h, pending.drop_last())
    }
}

/// A buffer of pending actions, drained most recent first.
pub struct Frame {
    actions: Vec<Action>,
}

impl View for Frame {
    type V = Seq<Action>;

    /// The pending actions in the order they were added.
    closed spec fn view(&self) -> Seq<Action> {
        self.actions@
    }
}

impl Frame {
    pub fn new() -> (f: Frame)
        ensures
            f@ == Seq::<Action>::empty(),
    {
        Frame { actions: Vec::new() }
    }

    pub fn add_action(&mut self, action: Action)
        ensures
            final(self)@ == old(self)@.push(action),
    {
        self.actions.push(action);
    }

    pub fn clear(&mut self)
        ensures
            final(self)@ == Seq::<Action>::empty(),
    {
        self.actions.clear();
    }

    pub fn is_empty(&self) -> (r: bool)
        ensures
            r == (self@.len() == 0),
    {
        self.actions.len() == 0
    }

    pub fn len(&self) -> (n: usize)
        ensures
            n == self@.len(),
    {
        self.actions.len()
    }

    /// Removes and returns the most recently added action.
    pub fn poll(&mut self) -> (r: Option<Action>)
        ensures
            old(self)@.len() == 0 ==> r is None && final(self)@ == old(self)@,
            old(self)@.len() > 0 ==> r == Some(old(self)@.last()) && final(self)@ == old(self)@.drop_last(),
    {
        self.actions.pop()
    }
}

impl Game {
    /// Whether every pending action may be applied to this grid.
    pub open spec fn accepts(&self, pending: Seq<Action>) -> bool {
        actions_valid(self.spec_width(), self.spec_height(), pending)
    }

    /// Applies the frame's actions, most recent first, until it is empty.
    /// A whole-cell `Replace` on a missing position is skipped; a swap reads
    /// both cells before writing either.
    pub fn apply_frame(&mut self, frame: &mut Frame)
        requires
            old(self).wf(),
            old(self).accepts(old(frame)@),
        ensures
            final(self).wf(),
            final(self).spec_width() == old(self).spec_width(),
            final(self).spec_height() == old(self).spec_height(),
            final(self).spec_iteration() == old(self).spec_iteration(),
            final(self).spec_cells() == drained(
                old(self).spec_cells(),
                old(self).spec_width(),
                old(self).spec_height(),
                old(frame)@,
            ),
            final(frame)@ == Seq::<Action>::empty(),
    {
        let ghost w = self.spec_width();
        let ghost h = self.spec_height();
        let ghost target = drained(self.spec_cells(), w, h, frame@);
        loop
            invariant
                self.wf(),
                self.spec_width() == w,
                self.spec_height() == h,
                self.spec_iteration() == old(self).spec_iteration(),
                self.accepts(frame@),
                drained(self.spec_cells(), w, h, frame@) == target,
            ensures
                self.wf(),
                self.spec_width() == w,
                self.spec_height() == h,
                self.spec_iteration() == old(self).spec_iteration(),
                self.spec_cells() == target,
                frame@ == Seq::<Action>::empty(),
            decreases frame@.len(),
        {
            let ghost before = frame@;
            let polled = frame.poll();
            match polled {
                None => {
                    assert(frame@ =~= Seq::<Action>::empty());
                    break;
                },
                Some(action) => {
                    assert(action_valid(w, h, before[before.len() - 1]));
                    self.apply_one(action);
                    assert(self.accepts(frame@)) by {
                        assert forall|i: int| 0 <= i < frame@.len() implies action_valid(
                            w,
                            h,
                            #[trigger] frame@[i],
                        ) by {
                            assert(frame@[i] == before[i]);
                        }
                    }
                },
            }
        }
    }

    fn apply_one(&mut self, action: Action)
        requires
            old(self).wf(),
            action_valid(old(self).spec_width(), old(self).spec_height(), action),
        ensures
            final(self).wf(),
            final(self).spec_width() == old(self).spec_width(),
            final(self).spec_height() == old(self).spec_height(),
            final(self).spec_iteration() == old(self).spec_iteration(),
            final(self).spec_cells() == apply_action(
                old(self).spec_cells(),
                old(self).spec_width(),
                old(self).spec_height(),
                action,
            ),
    {
        match action {
            Action::Cell(coords, cell_action) => match cell_action {
                CellAction::Replace(cell) => self.try_set_cell(coords.x, coords.y, cell),
                CellAction::Clear => self.set_cell(coords.x, coords.y, Cell::default()),
                CellAction::SetKind(kind) => {
                    let mut cell = *self.get_cell(coords.x, coords.y);
                    cell.kind = kind;
                    self.set_cell(coords.x, coords.y, cell);
                },
                CellAction::SetColorMode(color_mode) => {
                    let mut cell = *self.get_cell(coords.x, coords.y);
                    cell.color_mode = color_mode;
                    self.set_cell(coords.x, coords.y, cell);
                },
            },
            Action::Swap(coords1, coords2) => {
                let cell1 = *self.get_cell(coords1.x, coords1.y);
                let cell2 = *self.get_cell(coords2.x, coords2.y);
                self.set_cell(coords1.x, coords1.y, cell2);
                self.set_cell(coords2.x, coords2.y, cell1);
            },
        }
    }
}

/// Draining a buffer that holds nothing leaves the cells as they were.
pub proof fn law_drain_empty_is_noop(cells: Seq<Cell>, w: nat, h: nat)
    ensures
        drained(cells, w, h, Seq::<Action>::empty()) == cells,
{
}

/// Of two queued actions the later one is applied first.
pub proof fn law_drain_is_last_in_first_out(
    cells: Seq<Cell>,
    w: nat,
    h: nat,
    first: Action,
    second: Action,
)
    ensures
        drained(cells, w, h, seq![first, second]) == apply_action(
            apply_action(cells, w, h, second),
            w,
            h,
            first,
        ),
{
    let s = seq![first, second];
    assert(s.drop_last() =~= seq![first]);
    assert(seq![first].drop_last() =~= Seq::<Action>::empty());
    reveal_with_fuel(drained, 3);
}

} // verus!
