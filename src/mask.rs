use vstd::prelude::*;
use crate::cell::{Cell, Coords};
use crate::game::Game;

verus! {

/// A rectangular boolean stencil read row-major, with the stencil cell that
/// stands for the pattern's origin (`center`) and the grid position the
/// origin is placed on (`coords`).
#[derive(Debug)]
pub struct Mask {
    data: Vec<bool>,
    stride: u32,
    pub center: Coords,
    pub coords: Coords,
}

impl Mask {
    /// The stencil, row by row.
    pub closed spec fn spec_data(&self) -> Seq<bool> {
        self.data@
    }

    /// The stencil's width.
    pub closed spec fn spec_stride(&self) -> nat {
        self.stride as nat
    }

    /// The stencil cell that stands for the pattern's origin.
    pub closed spec fn spec_center(&self) -> Coords {
        self.center
    }

    /// The grid position the origin is placed on.
    pub closed spec fn spec_coords(&self) -> Coords {
        self.coords
    }

    /// The stencil's length is a whole number of rows.
    pub open spec fn wf(&self) -> bool {
        &&& self.spec_stride() > 0
        &&& self.spec_data().len() % self.spec_stride() == 0
        &&& self.spec_data().len() <= u32::MAX
    }

    /// The stencil value in column x of row y.
    pub open spec fn spec_get(&self, x: int, y: int) -> bool {
        self.spec_data()[y * self.spec_stride() + x]
    }

    /// A mask over `data` with `stride` columns, anchored at (0, 0); none
    /// where the length is not a whole number of rows.
    pub fn new(data: Vec<bool>, stride: u32, center: Coords) -> (r: Option<Mask>)
        requires
            data@.len() <= u32::MAX,
        ensures
            r is Some <==> (stride > 0 && data@.len() % (stride as nat) == 0),
            r matches Some(m) ==> {
                &&& m.wf()
                &&& m.spec_data() == data@
                &&& m.spec_stride() == stride
                &&& m.spec_center() == center
                &&& m.spec_coords() == (Coords { x: 0, y: 0 })
            },
    {
        if stride == 0 || data.len() % (stride as usize) != 0 {
            return None;
        }
        Some(Mask { data, stride, center, coords: Coords { x: 0, y: 0 } })
    }

    /// Places the pattern's origin on grid position `c`.
    pub fn set_coords(&mut self, c: Coords)
        ensures
            final(self).spec_coords() == c,
            final(self).spec_data() == old(self).spec_data(),
            final(self).spec_stride() == old(self).spec_stride(),
            final(self).spec_center() == old(self).spec_center(),
    {
        self.coords = c;
    }

    /// The stencil value in column x of row y.
    pub fn get(&self, x: u32, y: u32) -> (r: bool)
        requires
            self.wf(),
            x < self.spec_stride(),
            y < self.spec_data().len() / self.spec_stride(),
        ensures
            r == self.spec_get(x as int, y as int),
    {
        let s = self.stride as usize;
        let n = self.data.len();
        proof {
            let (xi, yi, si, ni) = (x as int, y as int, s as int, n as int);
            let q = ni / si;
            vstd::arithmetic::div_mod::lemma_fundamental_div_mod(ni, si);
            assert(yi * si + xi < ni) by (nonlinear_arith)
                requires
                    yi < q,
                    xi < si,
                    0 <= xi,
                    q * si == ni,
                    si > 0,
            ;
            assert(0 <= yi * si) by (nonlinear_arith)
                requires
                    si > 0,
                    yi >= 0,
            ;
        }
        self.data[(y as usize) * s + (x as usize)]
    }

    /// The grid row of stencil slot i.
    pub open spec fn spec_row(&self, i: int) -> int {
        self.spec_coords().y - self.spec_center().y + i / (self.spec_stride() as int)
    }

    /// The grid column of stencil slot i.
    pub open spec fn spec_col(&self, i: int) -> int {
        self.spec_coords().x - self.spec_center().x + i % (self.spec_stride() as int)
    }

    /// Whether stencil slot i is set and lands on the grid.
    pub open spec fn hits(&self, g: &Game, i: int) -> bool {
        self.spec_data()[i] && g.spec_exists(self.spec_col(i), self.spec_row(i))
    }

    /// What masked iteration yields for stencil slot i.
    pub open spec fn item(&self, g: &Game, i: int) -> (Coords, Cell) {
        (
            Coords { x: self.spec_col(i) as i32, y: self.spec_row(i) as i32 },
            g.spec_cell(self.spec_col(i), self.spec_row(i)),
        )
    }

    /// What masked iteration yields from stencil slot i on, in scan order.
    pub open spec fn yields_from(&self, g: &Game, i: int) -> Seq<(Coords, Cell)>
        decreases self.spec_data().len() - i,
    {
        if i < 0 || i >= self.spec_data().len() {
            Seq::empty()
        } else if self.hits(g, i) {
            seq![self.item(g, i)].add(self.yields_from(g, i + 1))
        } else {
            self.yields_from(g, i + 1)
        }
    }
}

impl Clone for Mask {
    fn clone(&self) -> (m: Mask)
        ensures
            m.spec_data() == self.spec_data(),
            m.spec_stride() == self.spec_stride(),
            m.spec_center() == self.spec_center(),
            m.spec_coords() == self.spec_coords(),
    {
        Mask { data: self.data.clone(), stride: self.stride, center: self.center, coords: self.coords }
    }
}

impl Default for Mask {
    /// The empty mask, with no columns.
    fn default() -> (m: Mask)
        ensures
            m.spec_data() == Seq::<bool>::empty(),
            m.spec_stride() == 0,
            m.spec_center() == (Coords { x: 0, y: 0 }),
            m.spec_coords() == (Coords { x: 0, y: 0 }),
    {
        Mask { data: Vec::new(), stride: 0, center: Coords { x: 0, y: 0 }, coords: Coords { x: 0, y: 0 } }
    }
}

/// Walks the grid positions a mask selects, reading the grid as it goes.
pub struct MaskedCellIterator<'a> {
    pub mask: &'a Mask,
    pub game_width: u32,
    pub game_height: u32,
    pub current_index: usize,
    pub game: &'a Game,
}

impl<'a> MaskedCellIterator<'a> {
    pub open spec fn wf(&self) -> bool {
        &&& self.mask.wf()
        &&& self.game.wf()
        &&& self.game_width == self.game.spec_width()
        &&& self.game_height == self.game.spec_height()
        &&& self.current_index <= self.mask.spec_data().len()
    }

    /// What is left to yield.
    pub open spec fn remaining(&self) -> Seq<(Coords, Cell)> {
        self.mask.yields_from(self.game, self.current_index as int)
    }

    /// The next selected position on the grid and its current cell.
    pub fn next(&mut self) -> (r: Option<(Coords, &'a Cell)>)
        requires
            old(self).wf(),
        ensures
            final(self).wf(),
            final(self).mask == old(self).mask,
            final(self).game == old(self).game,
            old(self).remaining().len() == 0 ==> {
                &&& r is None
                &&& final(self).remaining().len() == 0
                &&& final(self).current_index == old(self).mask.spec_data().len()
            },
            old(self).remaining().len() > 0 ==> {
                &&& old(self).current_index <= final(self).current_index - 1
                &&& old(self).mask.hits(old(self).game, final(self).current_index - 1)
                &&& forall|k: int|
                    old(self).current_index <= k < final(self).current_index - 1 ==> !old(self).mask.hits(
                        old(self).game,
                        k,
                    )
            },
            old(self).remaining().len() > 0 ==> {
                &&& r matches Some((c, cell)) && (c, *cell) == old(self).remaining()[0]
                &&& final(self).remaining() == old(self).remaining().drop_first()
            },
    {
        let n = self.mask.data.len();
        let stride = self.mask.stride as usize;
        while self.current_index < n
            invariant
                self.wf(),
                self.mask == old(self).mask,
                self.game == old(self).game,
                n == self.mask.spec_data().len(),
                stride == self.mask.spec_stride(),
                self.remaining() == old(self).remaining(),
                old(self).current_index <= self.current_index,
                forall|k: int|
                    old(self).current_index <= k < self.current_index ==> !old(self).mask.hits(
                        old(self).game,
                        k,
                    ),
            decreases n - self.current_index,
        {
            let i = self.current_index;
            let row = (self.mask.coords.y as i64) - (self.mask.center.y as i64) + ((i / stride) as i64);
            let col = (self.mask.coords.x as i64) - (self.mask.center.x as i64) + ((i % stride) as i64);
            self.current_index = i + 1;
            if self.mask.data[i] && row < self.game_height as i64 && row >= 0 && col < self.game_width as i64 && col >= 0 {
                let coords = Coords { x: col as i32, y: row as i32 };
                let cell = self.game.get_cell(col as i32, row as i32);
                return Some((coords, cell));
            }
        }
        None
    }
}

impl Game {
    /// Iterates, in stencil scan order, over the set stencil cells of `mask`
    /// at its current anchor that fall on the grid.
    pub fn iter_masked_cells<'a>(&'a self, mask: &'a Mask) -> (it: MaskedCellIterator<'a>)
        requires
            self.wf(),
            mask.wf(),
        ensures
            it.wf(),
            *it.mask == *mask,
            *it.game == *self,
            it.current_index == 0,
            it.remaining() == mask.yields_from(self, 0),
    {
        MaskedCellIterator {
            mask,
            game_width: self.width(),
            game_height: self.height(),
            current_index: 0,
            game: self,
        }
    }
}

/// A plus shape: the center and its four edge neighbours.
pub fn star_mask() -> (m: Mask)
    ensures
        m.wf(),
        m.spec_stride() == 3,
        m.spec_data() == seq![false, true, false, true, true, true, false, true, false],
        m.spec_center() == (Coords { x: 1, y: 1 }),
{
    stencil_3x3(false, true, false, true, true, true, false, true, false)
}

/// The four edge neighbours of the center.
pub fn near_mask() -> (m: Mask)
    ensures
        m.wf(),
        m.spec_stride() == 3,
        m.spec_data() == seq![false, true, false, true, false, true, false, true, false],
        m.spec_center() == (Coords { x: 1, y: 1 }),
{
    stencil_3x3(false, true, false, true, false, true, false, true, false)
}

/// The eight neighbours of the center.
pub fn far_mask() -> (m: Mask)
    ensures
        m.wf(),
        m.spec_stride() == 3,
        m.spec_data() == seq![true, true, true, true, false, true, true, true, true],
        m.spec_center() == (Coords { x: 1, y: 1 }),
{
    stencil_3x3(true, true, true, true, false, true, true, true, true)
}

/// Three cells in a row, centered on the middle one.
pub fn row_mask() -> (m: Mask)
    ensures
        m.wf(),
        m.spec_stride() == 3,
        m.spec_data() == seq![true, true, true],
        m.spec_center() == (Coords { x: 1, y: 0 }),
{
    let data: Vec<bool> = vec![true, true, true];
    let r = Mask::new(data, 3, Coords { x: 1, y: 0 });
    r.unwrap()
}

/// Three cells in a column, centered on the middle one.
pub fn column_mask() -> (m: Mask)
    ensures
        m.wf(),
        m.spec_stride() == 1,
        m.spec_data() == seq![true, true, true],
        m.spec_center() == (Coords { x: 0, y: 1 }),
{
    let data: Vec<bool> = vec![true, true, true];
    let r = Mask::new(data, 1, Coords { x: 0, y: 1 });
    r.unwrap()
}

fn stencil_3x3(a: bool, b: bool, c: bool, d: bool, e: bool, f: bool, g: bool, h: bool, i: bool) -> (m: Mask)
    ensures
        m.wf(),
        m.spec_stride() == 3,
        m.spec_data() == seq![a, b, c, d, e, f, g, h, i],
        m.spec_center() == (Coords { x: 1, y: 1 }),
        m.spec_coords() == (Coords { x: 0, y: 0 }),
{
    let data: Vec<bool> = vec![a, b, c, d, e, f, g, h, i];
    assert(data@ =~= seq![a, b, c, d, e, f, g, h, i]);
    let r = Mask::new(data, 3, Coords { x: 1, y: 1 });
    r.unwrap()
}

/// A mask built from a valid stencil reads back every stencil value.
pub proof fn law_mask_reads_back(data: Seq<bool>, stride: nat, m: Mask, x: int, y: int)
    requires
        m.spec_data() == data,
        m.spec_stride() == stride,
        stride > 0,
        0 <= x < stride,
        0 <= y < data.len() / stride,
    ensures
        m.spec_get(x, y) == data[y * stride + x],
{
}

} // verus!
