use vstd::prelude::*;
use rand::Rng;
use crate::cell::{Cell, Cells, Coords, kind_hardness};
use crate::frame::{Action, Frame, apply_action, drained, in_grid, slot_of};
use crate::game::Game;

verus! {

/// Relies on rand's `thread_rng().gen_range(0..n)`: a value drawn from
/// `[0, n)`, which panics on an empty range.
#[verifier::external_body]
pub(crate) fn random_below(n: u32) -> (r: u32)
    requires
        n > 0,
    ensures
        r < n,
{
    rand::thread_rng().gen_range(0..n)
}

/// The position one row below and `dx` columns beside `at`.
pub open spec fn spec_below(at: Coords, dx: int) -> Coords {
    Coords { x: (at.x + dx) as i32, y: (at.y + 1) as i32 }
}

/// The action the rule of `cell`'s kind queues for position `at`.
///
/// Air and wall stay put. Sand swaps with the cell directly below when that
/// cell exists and is softer than sand. Otherwise the rule picks a diagonal
/// below by `direction` (0 for left, else right), but its displacement test
/// compares the diagonal cell's hardness with itself, so it never passes and
/// no diagonal slide is queued.
pub open spec fn rule_action(g: &Game, at: Coords, cell: Cell) -> Option<Action> {
    rule_on(g.spec_cells(), g.spec_width(), g.spec_height(), at, cell)
}

/// The rule of `rule_action`, on the cells of a `w` by `h` grid.
pub open spec fn rule_on(cells: Seq<Cell>, w: nat, h: nat, at: Coords, cell: Cell) -> Option<Action> {
    match cell.kind {
        Cells::Sand => {
            let below = spec_below(at, 0);
            if in_grid(w, h, below) && kind_hardness(cells[slot_of(w, below)].kind) < kind_hardness(
                Cells::Sand,
            ) {
                Some(Action::Swap(at, below))
            } else {
                None
            }
        },
        _ => None,
    }
}

/// The frame's contents after queueing `a`, if any.
pub open spec fn queued(pending: Seq<Action>, a: Option<Action>) -> Seq<Action> {
    match a {
        Some(act) => pending.push(act),
        None => pending,
    }
}

impl Cell {
    /// Queues the action that the rule of `cell`'s kind decides at `coords`,
    /// with `direction` choosing the diagonal that sand tries when it cannot
    /// fall straight down.
    pub fn update_with(game: &Game, coords: Coords, cell: &Cell, direction: u32, frame: &mut Frame)
        requires
            game.wf(),
            game.spec_exists(coords.x as int, coords.y as int),
        ensures
            final(frame)@ == queued(old(frame)@, rule_action(game, coords, *cell)),
    {
        match cell.kind {
            Cells::Air => (),
            Cells::Wall => (),
            Cells::Sand => {
                let below_coords = Coords { x: coords.x, y: coords.y + 1 };
                if let Some(below_cell) = game.try_get_cell(below_coords.x, below_coords.y) {
                    if below_cell.kind.hardness() < cell.kind.hardness() {
                        frame.add_action(Action::Swap(coords, below_coords));
                    } else {
                        let side = if direction == 0 {
                            Coords { x: coords.x - 1, y: coords.y + 1 }
                        } else {
                            Coords { x: coords.x + 1, y: coords.y + 1 }
                        };
                        if let Some(cell) = game.try_get_cell(side.x, side.y) {
                            if cell.kind.hardness() < cell.kind.hardness() {
                                frame.add_action(Action::Swap(coords, side));
                            }
                        }
                    }
                }
            },
        }
    }

    /// Queues the action that the rule of `cell`'s kind decides at `coords`,
    /// drawing at random the diagonal that sand tries.
    pub fn update(game: &Game, coords: Coords, cell: &Cell, frame: &mut Frame)
        requires
            game.wf(),
            game.spec_exists(coords.x as int, coords.y as int),
        ensures
            final(frame)@ == queued(old(frame)@, rule_action(game, coords, *cell)),
    {
        let direction = random_below(2);
        Cell::update_with(game, coords, cell, direction, frame);
    }
}

/// Writing `v` at slot i of `s` trades one occurrence of `s[i]` for `v`.
pub proof fn lemma_update_to_multiset(s: Seq<Cell>, i: int, v: Cell)
    requires
        0 <= i < s.len(),
    ensures
        s.update(i, v).to_multiset() =~= s.to_multiset().remove(s[i]).insert(v),
{
    broadcast use vstd::seq_lib::group_to_multiset_ensures;

    let u = s.update(i, v);
    assert(u.remove(i) =~= s.remove(i));
    assert(u[i] == v);
    assert(u.to_multiset().count(v) > 0) by {
        assert(u.contains(v));
    }
    assert(u.to_multiset() =~= u.to_multiset().remove(v).insert(v));
}

/// A swap keeps the cells of the grid, only moving them.
pub proof fn lemma_swap_keeps_cells(cells: Seq<Cell>, w: nat, h: nat, p: Coords, q: Coords)
    requires
        0 <= slot_of(w, p) < cells.len(),
        0 <= slot_of(w, q) < cells.len(),
    ensures
        apply_action(cells, w, h, Action::Swap(p, q)).to_multiset() =~= cells.to_multiset(),
{
    broadcast use vstd::seq_lib::group_to_multiset_ensures;

    let (i, j) = (slot_of(w, p), slot_of(w, q));
    let s1 = cells.update(i, cells[j]);
    lemma_update_to_multiset(cells, i, cells[j]);
    lemma_update_to_multiset(s1, j, cells[i]);
    assert(cells.to_multiset().count(cells[i]) > 0) by {
        assert(cells.contains(cells[i]));
    }
    if i == j {
        assert(s1 =~= cells);
    }
}

/// The cells of a `w` by `h` grid after one sample at `at` with an empty
/// frame.
pub open spec fn step(cells: Seq<Cell>, w: nat, h: nat, at: Coords) -> Seq<Cell> {
    drained(cells, w, h, queued(Seq::empty(), rule_on(cells, w, h, at, cells[slot_of(w, at)])))
}

/// The cells after one sample at each of `samples`, in order.
pub open spec fn run(cells: Seq<Cell>, w: nat, h: nat, samples: Seq<Coords>) -> Seq<Cell>
    decreases samples.len(),
{
    if samples.len() == 0 {
        cells
    } else {
        step(run(cells, w, h, samples.drop_last()), w, h, samples.last())
    }
}

/// What one sample at `at` does to the cells of a grid whose frame was
/// empty.
pub open spec fn sampled(g: &Game, at: Coords) -> Seq<Cell> {
    step(g.spec_cells(), g.spec_width(), g.spec_height(), at)
}

/// A cell that no sample moves: a wall, or sand on the bottom row.
pub open spec fn settled(cells: Seq<Cell>, w: nat, i: int) -> bool {
    cells[i].kind == Cells::Wall || (cells[i].kind == Cells::Sand && i + w >= cells.len())
}

/// A sample either changes nothing, or moves a sand cell one row down into
/// the air below it, the air taking its place.
pub proof fn law_step_moves_sand_down(cells: Seq<Cell>, w: nat, h: nat, at: Coords)
    requires
        cells.len() == w * h,
        h <= i32::MAX,
        in_grid(w, h, at),
    ensures
        step(cells, w, h, at) == cells || {
            let below = spec_below(at, 0);
            let (i, j) = (slot_of(w, at), slot_of(w, below));
            &&& cells[i].kind == Cells::Sand
            &&& in_grid(w, h, below)
            &&& below.x == at.x && below.y == at.y + 1
            &&& cells[j].kind == Cells::Air
            &&& step(cells, w, h, at) == cells.update(i, cells[j]).update(j, cells[i])
        },
{
    reveal_with_fuel(drained, 2);
    let a = rule_on(cells, w, h, at, cells[slot_of(w, at)]);
    if let Some(act) = a {
        assert(Seq::<Action>::empty().push(act).drop_last() =~= Seq::<Action>::empty());
    }
}

proof fn lemma_step_keeps_settled(cells: Seq<Cell>, w: nat, h: nat, at: Coords, i: int)
    requires
        cells.len() == w * h,
        h <= i32::MAX,
        in_grid(w, h, at),
        0 <= i < cells.len(),
        settled(cells, w, i),
    ensures
        step(cells, w, h, at).len() == cells.len(),
        step(cells, w, h, at)[i] == cells[i],
{
    law_step_moves_sand_down(cells, w, h, at);
    let below = spec_below(at, 0);
    let (ia, ib) = (slot_of(w, at), slot_of(w, below));
    if step(cells, w, h, at) != cells {
        let (x, y, wi, hi) = (at.x as int, at.y as int, w as int, h as int);
        assert(ia == y * wi + x);
        assert(ib == (y + 1) * wi + x);
        assert((y + 1) * wi + x == y * wi + x + wi) by (nonlinear_arith);
        assert((y + 1) * wi + x < wi * hi && 0 <= y * wi) by (nonlinear_arith)
            requires
                0 <= x < wi,
                0 <= y,
                y + 1 < hi,
        {
            assert((y + 1) * wi <= (hi - 1) * wi) by (nonlinear_arith)
                requires
                    y + 1 <= hi - 1,
                    0 <= wi,
            ;
        }
    }
}

/// Walls, and sand resting on the bottom row, stay where they are through
/// any run of samples.
pub proof fn law_run_keeps_settled(cells: Seq<Cell>, w: nat, h: nat, samples: Seq<Coords>, i: int)
    requires
        cells.len() == w * h,
        h <= i32::MAX,
        forall|k: int| 0 <= k < samples.len() ==> in_grid(w, h, #[trigger] samples[k]),
        0 <= i < cells.len(),
        settled(cells, w, i),
    ensures
        run(cells, w, h, samples).len() == cells.len(),
        run(cells, w, h, samples)[i] == cells[i],
    decreases samples.len(),
{
    if samples.len() > 0 {
        let rest = samples.drop_last();
        law_run_keeps_settled(cells, w, h, rest, i);
        let mid = run(cells, w, h, rest);
        assert(in_grid(w, h, samples[samples.len() - 1]));
        lemma_step_keeps_settled(mid, w, h, samples.last(), i);
    }
}

/// A sample keeps the cells of the grid, only moving them.
pub proof fn law_sample_keeps_cells(g: &Game, at: Coords)
    requires
        g.wf(),
        g.spec_exists(at.x as int, at.y as int),
    ensures
        sampled(g, at).to_multiset() =~= g.spec_cells().to_multiset(),
{
    let a = rule_action(g, at, g.spec_cell(at.x as int, at.y as int));
    let (w, h) = (g.spec_width(), g.spec_height());
    if let Some(act) = a {
        let below = spec_below(at, 0);
        g.lemma_index_in_range(at.x as int, at.y as int);
        g.lemma_index_in_range(below.x as int, below.y as int);
        lemma_swap_keeps_cells(g.spec_cells(), w, h, at, below);
        let pending = Seq::<Action>::empty().push(act);
        assert(pending.drop_last() =~= Seq::<Action>::empty());
        reveal_with_fuel(drained, 2);
    }
}

/// Sand over air trades places with it in one sample.
pub proof fn law_sand_falls_into_air(g: &Game, at: Coords)
    requires
        g.wf(),
        g.spec_exists(at.x as int, at.y as int),
        g.spec_exists(at.x as int, at.y + 1),
        g.spec_cell(at.x as int, at.y as int).kind == Cells::Sand,
        g.spec_cell(at.x as int, at.y + 1).kind == Cells::Air,
    ensures
        sampled(g, at)[g.spec_index(at.x as int, at.y + 1)] == g.spec_cell(at.x as int, at.y as int),
        sampled(g, at)[g.spec_index(at.x as int, at.y as int)] == g.spec_cell(at.x as int, at.y + 1),
{
    let below = spec_below(at, 0);
    let pending = Seq::<Action>::empty().push(Action::Swap(at, below));
    assert(pending.drop_last() =~= Seq::<Action>::empty());
    reveal_with_fuel(drained, 2);
    g.lemma_index_in_range(at.x as int, at.y as int);
    g.lemma_index_in_range(at.x as int, at.y + 1);
}

/// Sand on the bottom row, or over a cell at least as hard as sand, stays
/// where it is: a sample changes nothing.
pub proof fn law_sand_rests(g: &Game, at: Coords)
    requires
        g.wf(),
        g.spec_exists(at.x as int, at.y as int),
        g.spec_cell(at.x as int, at.y as int).kind == Cells::Sand,
        g.spec_exists(at.x as int, at.y + 1) ==> kind_hardness(g.spec_cell(at.x as int, at.y + 1).kind)
            >= kind_hardness(Cells::Sand),
    ensures
        sampled(g, at) == g.spec_cells(),
{
}

} // verus!
