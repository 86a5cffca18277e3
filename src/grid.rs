//! The grid: a row-major array of cells, the per-tick "already updated" flags,
//! bounds and neighbourhood queries.
use vstd::prelude::*;
use crate::geometry::Pos;
use crate::material::{Cell, CellType};
use crate::mass::{MAX_MASS, MIN_FLUID};

verus! {

pub struct Grid {
    size: Pos,
    cells: Vec<Cell>,
    updated: Vec<bool>,
}

/// The offset of the `k`-th Moore neighbour (`0 <= k < 8`), columns first.
pub open spec fn moore_offset_spec(k: int) -> Pos {
    let j = if k < 4 { k } else { k + 1 };
    Pos { x: (j / 3 - 1) as i32, y: (j % 3 - 1) as i32 }
}

pub open spec fn shifted(p: Pos, d: Pos) -> Pos {
    Pos { x: (p.x + d.x) as i32, y: (p.y + d.y) as i32 }
}

/// Positions at most one step apart on each axis.
pub open spec fn adjacent_or_same(p: Pos, q: Pos) -> bool {
    -1 <= p.x - q.x <= 1 && -1 <= p.y - q.y <= 1
}

/// A cell left over from a fluid that has all but dried up.
pub open spec fn is_dry(c: CellType) -> bool {
    match c {
        CellType::Fluid(_, m) => m <= MIN_FLUID,
        _ => false,
    }
}

fn moore_offset(k: usize) -> (d: Pos)
    requires
        k < 8,
    ensures
        d == moore_offset_spec(k as int),
        -1 <= d.x <= 1,
        -1 <= d.y <= 1,
{
    let j: usize = if k < 4 { k } else { k + 1 };
    Pos { x: (j / 3) as i32 - 1, y: (j % 3) as i32 - 1 }
}

impl Grid {
    /// Width (x) and height (y).
    pub closed spec fn dims(self) -> Pos {
        self.size
    }

    pub open spec fn in_range_spec(self, p: Pos) -> bool {
        0 <= p.x < self.dims().x && 0 <= p.y < self.dims().y
    }

    pub closed spec fn index_of(self, p: Pos) -> int {
        p.y * self.size.x + p.x
    }

    /// The type of the cell at `p`.
    pub closed spec fn cell_at(self, p: Pos) -> CellType {
        self.cells@[self.index_of(p)].typ
    }

    /// Whether the cell at `p` has been updated in the current tick.
    pub closed spec fn updated_at(self, p: Pos) -> bool {
        self.updated@[self.index_of(p)]
    }

    pub closed spec fn shape_ok(self) -> bool {
        &&& self.size.x >= 0
        &&& self.size.y >= 0
        &&& self.cells@.len() == self.size.x * self.size.y
        &&& self.updated@.len() == self.size.x * self.size.y
    }

    /// Well-formed: the arrays match the size, and every cell's payload is valid.
    pub open spec fn wf(self) -> bool {
        &&& self.shape_ok()
        &&& self.dims().x >= 0
        &&& self.dims().y >= 0
        &&& forall|p: Pos| self.in_range_spec(p) ==> (#[trigger] self.cell_at(p)).valid()
    }

    /// In a well-formed grid no fluid cell holds a negative mass or more than
    /// `MAX_MASS`.
    pub proof fn lemma_fluid_mass_bounded(self, p: Pos)
        requires
            self.wf(),
            self.in_range_spec(p),
        ensures
            match self.cell_at(p) {
                CellType::Fluid(_, m) => 0 <= m <= MAX_MASS,
                _ => true,
            },
    {
    }

    /// `self` is `old` at the start of a tick: dried-up fluid cells emptied and
    /// every flag cleared.
    pub open spec fn swept_from(self, old: Grid) -> bool {
        &&& self.dims() == old.dims()
        &&& forall|p: Pos| self.in_range_spec(p) ==> #[trigger] self.cell_at(p) == (if is_dry(old.cell_at(p)) {
            CellType::Empty
        } else {
            old.cell_at(p)
        })
        &&& forall|p: Pos| self.in_range_spec(p) ==> !#[trigger] self.updated_at(p)
    }

    /// Same size, same cells and same flags.
    pub open spec fn same_as(self, other: Grid) -> bool {
        &&& self.dims() == other.dims()
        &&& forall|p: Pos| self.in_range_spec(p) ==> #[trigger] self.cell_at(p) == other.cell_at(p)
        &&& forall|p: Pos| self.in_range_spec(p) ==> #[trigger] self.updated_at(p) == other.updated_at(p)
    }

    /// `self` is `old` with the cell at `q` set to `c`.
    pub open spec fn is_set(self, old: Grid, q: Pos, c: CellType) -> bool {
        &&& self.dims() == old.dims()
        &&& self.cell_at(q) == c
        &&& forall|p: Pos| self.in_range_spec(p) && p != q ==> #[trigger] self.cell_at(p) == old.cell_at(p)
        &&& forall|p: Pos| self.in_range_spec(p) ==> #[trigger] self.updated_at(p) == old.updated_at(p)
    }

    /// No flag that was set in `old` has been cleared.
    pub open spec fn flags_kept(self, old: Grid) -> bool {
        forall|p: Pos| self.in_range_spec(p) && #[trigger] old.updated_at(p) ==> self.updated_at(p)
    }

    /// Cells and flags away from the 3x3 block around `pos` are as in `old`.
    pub open spec fn local_change(self, old: Grid, pos: Pos) -> bool {
        &&& forall|p: Pos| self.in_range_spec(p) && !adjacent_or_same(p, pos) ==> #[trigger] self.cell_at(p)
            == old.cell_at(p)
        &&& forall|p: Pos| self.in_range_spec(p) && !adjacent_or_same(p, pos) ==> #[trigger] self.updated_at(p)
            == old.updated_at(p)
    }

    /// Every cell that was empty in `old` and holds something now is marked updated.
    pub open spec fn fills_marked(self, old: Grid) -> bool {
        forall|p: Pos|
            self.in_range_spec(p) && (old.cell_at(p) is Empty) && !(#[trigger] self.cell_at(p) is Empty)
                ==> self.updated_at(p)
    }

    /// What one cell's update may do to the grid: keep it well formed and its
    /// size, clear no flag, and touch nothing outside the block around `pos`.
    pub open spec fn step_ok(self, old: Grid, pos: Pos) -> bool {
        &&& self.wf()
        &&& self.dims() == old.dims()
        &&& self.flags_kept(old)
        &&& self.local_change(old, pos)
    }

    /// `self` is `old` with `c1` written at `q1` and `c2` at `q2`, two distinct
    /// cells; the flag of `q2` is set when `mark` holds, and no other flag
    /// changes.
    pub open spec fn is_set_two(self, old: Grid, q1: Pos, c1: CellType, q2: Pos, c2: CellType, mark: bool) -> bool {
        &&& self.dims() == old.dims()
        &&& self.cell_at(q1) == c1
        &&& self.cell_at(q2) == c2
        &&& forall|p: Pos| self.in_range_spec(p) && p != q1 && p != q2 ==> #[trigger] self.cell_at(p) == old.cell_at(p)
        &&& forall|p: Pos| self.in_range_spec(p) && p != q2 ==> #[trigger] self.updated_at(p) == old.updated_at(p)
        &&& self.updated_at(q2) == (old.updated_at(q2) || mark)
    }

    /// `self` is `old` with `c` spawned at `q`: the cell set and marked updated.
    pub open spec fn is_spawned(self, old: Grid, q: Pos, c: CellType) -> bool {
        &&& self.dims() == old.dims()
        &&& self.cell_at(q) == c
        &&& self.updated_at(q)
        &&& forall|p: Pos| self.in_range_spec(p) && p != q ==> #[trigger] self.cell_at(p) == old.cell_at(p)
        &&& forall|p: Pos| self.in_range_spec(p) && p != q ==> #[trigger] self.updated_at(p) == old.updated_at(p)
    }

    /// The cells of the Moore neighbourhood of `pos` that lie in range,
    /// among the first `k` offsets.
    pub open spec fn moore_upto(self, pos: Pos, k: int) -> Seq<Cell>
        decreases k,
    {
        if k <= 0 {
            Seq::empty()
        } else {
            let rest = self.moore_upto(pos, k - 1);
            let q = shifted(pos, moore_offset_spec(k - 1));
            if self.in_range_spec(q) {
                rest.push(Cell { typ: self.cell_at(q) })
            } else {
                rest
            }
        }
    }

    pub open spec fn moore_spec(self, pos: Pos) -> Seq<Cell> {
        self.moore_upto(pos, 8)
    }

    proof fn lemma_index(self, p: Pos)
        requires
            self.shape_ok(),
            self.in_range_spec(p),
        ensures
            0 <= self.index_of(p) < self.size.x * self.size.y,
    {
        assert(p.y * self.size.x + p.x < self.size.x * self.size.y) by (nonlinear_arith)
            requires 0 <= p.x < self.size.x, 0 <= p.y < self.size.y;
        assert(p.y * self.size.x >= 0) by (nonlinear_arith)
            requires 0 <= p.x < self.size.x, 0 <= p.y < self.size.y;
    }

    proof fn lemma_index_injective(self, p: Pos, q: Pos)
        requires
            self.shape_ok(),
            self.in_range_spec(p),
            self.in_range_spec(q),
            p != q,
        ensures
            self.index_of(p) != self.index_of(q),
    {
        let w = self.size.x as int;
        if p.y < q.y {
            assert(p.y * w + p.x < q.y * w + q.x) by (nonlinear_arith)
                requires p.y < q.y, 0 <= p.x < w, 0 <= q.x;
        } else if q.y < p.y {
            assert(q.y * w + q.x < p.y * w + p.x) by (nonlinear_arith)
                requires q.y < p.y, 0 <= q.x < w, 0 <= p.x;
        }
    }

    fn index(&self, p: Pos) -> (i: usize)
        requires
            self.shape_ok(),
            self.in_range_spec(p),
        ensures
            i as int == self.index_of(p),
            i < self.cells@.len(),
    {
        let n = self.cells.len();
        proof {
            self.lemma_index(p);
            assert(p.y * self.size.x <= p.y * self.size.x + p.x);
        }
        (p.y as usize) * (self.size.x as usize) + (p.x as usize)
    }

    /// A grid of `size` cells, all empty and none marked updated.
    pub fn new(size: Pos) -> (g: Grid)
        requires
            size.x >= 0,
            size.y >= 0,
            size.x * size.y <= usize::MAX,
        ensures
            g.wf(),
            g.dims() == size,
            forall|p: Pos| g.in_range_spec(p) ==> #[trigger] g.cell_at(p) == CellType::Empty,
            forall|p: Pos| g.in_range_spec(p) ==> !#[trigger] g.updated_at(p),
    {
        let n: usize = (size.x as usize) * (size.y as usize);
        let mut cells: Vec<Cell> = Vec::new();
        let mut updated: Vec<bool> = Vec::new();
        let mut i: usize = 0;
        while i < n
            invariant
                i <= n,
                cells@.len() == i,
                updated@.len() == i,
                forall|j: int| 0 <= j < i ==> #[trigger] cells@[j].typ == CellType::Empty,
                forall|j: int| 0 <= j < i ==> !#[trigger] updated@[j],
            decreases n - i,
        {
            cells.push(Cell { typ: CellType::Empty });
            updated.push(false);
            i += 1;
        }
        let g = Grid { size, cells, updated };
        assert forall|p: Pos| g.in_range_spec(p) implies #[trigger] g.cell_at(p) == CellType::Empty by {
            g.lemma_index(p);
        }
        assert forall|p: Pos| g.in_range_spec(p) implies !#[trigger] g.updated_at(p) by {
            g.lemma_index(p);
        }
        g
    }

    /// Width and height.
    pub fn size(&self) -> (r: Pos)
        ensures
            r == self.dims(),
    {
        self.size
    }

    /// Whether `pos` lies on the grid.
    pub fn in_range(&self, pos: Pos) -> (r: bool)
        ensures
            r == self.in_range_spec(pos),
            r <==> (0 <= pos.x < self.dims().x && 0 <= pos.y < self.dims().y),
    {
        pos.x >= 0 && pos.y >= 0 && pos.x < self.size.x && pos.y < self.size.y
    }

    /// The cell at `pos`.
    pub fn get(&self, pos: Pos) -> (c: Cell)
        requires
            self.wf(),
            self.in_range_spec(pos),
        ensures
            c.typ == self.cell_at(pos),
    {
        let i = self.index(pos);
        self.cells[i]
    }

    /// Puts `typ` in the cell at `pos`.
    pub fn set(&mut self, pos: Pos, typ: CellType)
        requires
            old(self).wf(),
            old(self).in_range_spec(pos),
            typ.valid(),
        ensures
            final(self).wf(),
            final(self).is_set(*old(self), pos, typ),
    {
        let i = self.index(pos);
        self.cells.set(i, Cell { typ });
        proof {
            assert forall|p: Pos| self.in_range_spec(p) && p != pos implies #[trigger] self.cell_at(p)
                == old(self).cell_at(p) by {
                self.lemma_index(p);
                self.lemma_index_injective(p, pos);
            }
            assert forall|p: Pos| self.in_range_spec(p) implies (#[trigger] self.cell_at(p)).valid() by {
                if p != pos {
                    assert(self.cell_at(p) == old(self).cell_at(p));
                }
            }
        }
    }

    /// The in-range cells of the Moore neighbourhood of `pos`, in a fixed order.
    pub fn moore(&self, pos: Pos) -> (r: Vec<Cell>)
        requires
            self.wf(),
            i32::MIN < pos.x < i32::MAX,
            i32::MIN < pos.y < i32::MAX,
        ensures
            r@ == self.moore_spec(pos),
            r@.len() <= 8,
    {
        let mut res: Vec<Cell> = Vec::new();
        let mut k: usize = 0;
        while k < 8
            invariant
                self.wf(),
                i32::MIN < pos.x < i32::MAX,
                i32::MIN < pos.y < i32::MAX,
                k <= 8,
                res@ == self.moore_upto(pos, k as int),
                res@.len() <= k,
            decreases 8 - k,
        {
            let q = pos.plus(moore_offset(k));
            if self.in_range(q) {
                res.push(self.get(q));
            }
            k += 1;
        }
        res
    }

    /// Whether the cell at `pos` has been updated in this tick.
    pub fn updated(&self, pos: Pos) -> (r: bool)
        requires
            self.wf(),
            self.in_range_spec(pos),
        ensures
            r == self.updated_at(pos),
    {
        let i = self.index(pos);
        self.updated[i]
    }

    /// Marks the cell at `pos` as updated for the rest of this tick.
    pub fn update(&mut self, pos: Pos)
        requires
            old(self).wf(),
            old(self).in_range_spec(pos),
        ensures
            final(self).wf(),
            final(self).dims() == old(self).dims(),
            final(self).updated_at(pos),
            forall|p: Pos| final(self).in_range_spec(p) ==> #[trigger] final(self).cell_at(p) == old(self).cell_at(p),
            forall|p: Pos| final(self).in_range_spec(p) && p != pos ==> #[trigger] final(self).updated_at(p)
                == old(self).updated_at(p),
    {
        let i = self.index(pos);
        self.updated.set(i, true);
        proof {
            assert forall|p: Pos| self.in_range_spec(p) && p != pos implies #[trigger] self.updated_at(p)
                == old(self).updated_at(p) by {
                self.lemma_index(p);
                self.lemma_index_injective(p, pos);
            }
            assert forall|p: Pos| self.in_range_spec(p) implies #[trigger] self.cell_at(p) == old(self).cell_at(p) by {
                self.lemma_index(p);
            }
        }
    }

    /// Starts a tick: dried-up fluid cells become empty and every flag is cleared.
    pub fn begin_tick(&mut self)
        requires
            old(self).wf(),
        ensures
            final(self).wf(),
            final(self).swept_from(*old(self)),
    {
        let n = self.cells.len();
        let mut i: usize = 0;
        while i < n
            invariant
                n == self.cells@.len(),
                self.shape_ok(),
                self.size == old(self).size,
                i <= n,
                forall|j: int| 0 <= j < i ==> #[trigger] self.cells@[j].typ == (if is_dry(
                    old(self).cells@[j].typ,
                ) {
                    CellType::Empty
                } else {
                    old(self).cells@[j].typ
                }),
                forall|j: int| i <= j < n ==> #[trigger] self.cells@[j] == old(self).cells@[j],
                forall|j: int| 0 <= j < i ==> !#[trigger] self.updated@[j],
            decreases n - i,
        {
            let c = self.cells[i];
            if let CellType::Fluid(_, m) = c.typ {
                if m <= MIN_FLUID {
                    self.cells.set(i, Cell { typ: CellType::Empty });
                }
            }
            self.updated.set(i, false);
            i += 1;
        }
        proof {
            assert forall|p: Pos| self.in_range_spec(p) implies (#[trigger] self.cell_at(p)).valid()
                && self.cell_at(p) == (if is_dry(old(self).cell_at(p)) {
                CellType::Empty
            } else {
                old(self).cell_at(p)
            }) by {
                self.lemma_index(p);
                assert(old(self).cell_at(p).valid());
            }
            assert forall|p: Pos| self.in_range_spec(p) implies !#[trigger] self.updated_at(p) by {
                self.lemma_index(p);
            }
        }
    }
}

} // verus!
