//! The world: the grid, its fixed visitation order, the tick scheduler and
//! the pixel buffer that shows the grid.
use vstd::prelude::*;
use rand::rngs::StdRng;
use crate::display::color_spec;
use crate::geometry::Pos;
use crate::grid::Grid;
use crate::rules::rule_outcome;
use crate::material::{CellType, CELL_SIZE};
use crate::random::shuffle_positions;

verus! {

broadcast use vstd::seq_lib::group_to_multiset_ensures;

/// Row `y` of a grid `w` cells wide, left to right.
pub open spec fn row_spec(w: int, y: int) -> Seq<Pos> {
    Seq::new(w as nat, |x: int| Pos { x: x as i32, y: y as i32 })
}

/// Every position of a `w` by `h` grid, row by row.
pub open spec fn raster_spec(w: int, h: int) -> Seq<Pos>
    decreases h,
{
    if h <= 0 {
        Seq::empty()
    } else {
        raster_spec(w, h - 1) + row_spec(w, h - 1)
    }
}

/// Pixel `k` of the buffer of a grid shown with `CELL_SIZE`-pixel cells, rows
/// first.
pub open spec fn pixel_spec(g: Grid, k: int) -> (u8, u8, u8) {
    let wide = g.dims().x * CELL_SIZE;
    let c = color_spec(
        g.cell_at(Pos { x: ((k % wide) / CELL_SIZE as int) as i32, y: ((k / wide) / CELL_SIZE as int) as i32 }),
    );
    (c.r, c.g, c.b)
}

proof fn lemma_raster(w: int, h: int)
    requires
        0 <= w <= i32::MAX,
        0 <= h <= i32::MAX,
    ensures
        raster_spec(w, h).len() == w * h,
        forall|i: int|
            0 <= i < raster_spec(w, h).len() ==> 0 <= (#[trigger] raster_spec(w, h)[i]).x < w && 0
                <= raster_spec(w, h)[i].y < h,
    decreases h,
{
    if h > 0 {
        lemma_raster(w, h - 1);
        assert(w * (h - 1) + w == w * h) by (nonlinear_arith);
        let r = raster_spec(w, h);
        assert forall|i: int| 0 <= i < r.len() implies 0 <= (#[trigger] r[i]).x < w && 0 <= r[i].y < h by {
            if i >= raster_spec(w, h - 1).len() {
                assert(r[i] == row_spec(w, h - 1)[i - raster_spec(w, h - 1).len()]);
            } else {
                assert(r[i] == raster_spec(w, h - 1)[i]);
            }
        }
    } else {
        assert(w * h == 0) by (nonlinear_arith)
            requires h == 0;
    }
}

/// `trace` runs through one tick of a grid `old` visited in `order`: it starts
/// at the swept grid, each step applies the rule of the cell then at the next
/// position of the order, and it ends at `new`.
pub open spec fn tick_trace(old: Grid, order: Seq<Pos>, trace: Seq<Grid>, new: Grid) -> bool {
    &&& trace.len() == order.len() + 1
    &&& trace[0].swept_from(old)
    &&& trace.last() == new
    &&& forall|i: int|
        0 <= i < order.len() ==> rule_outcome(
            trace[i].cell_at(order[i]),
            trace[i],
            order[i],
            #[trigger] trace[i + 1],
        )
}

proof fn lemma_flag_kept(old: Grid, order: Seq<Pos>, trace: Seq<Grid>, new: Grid, a: int, b: int, q: Pos)
    requires
        tick_trace(old, order, trace, new),
        0 <= a <= b <= order.len(),
        trace[a].in_range_spec(q),
        trace[a].updated_at(q),
    ensures
        trace[b].in_range_spec(q),
        trace[b].updated_at(q),
    decreases b - a,
{
    if a < b {
        assert(rule_outcome(trace[a].cell_at(order[a]), trace[a], order[a], trace[a + 1]));
        lemma_flag_kept(old, order, trace, new, a + 1, b, q);
    }
}

/// Within one tick, a cell that a rule fills (empty before that rule, not
/// after it) is marked, so when its own turn in the order comes later in the
/// tick its rule does nothing.
pub proof fn lemma_filled_cell_not_revisited(
    old: Grid,
    order: Seq<Pos>,
    trace: Seq<Grid>,
    new: Grid,
    i: int,
    j: int,
)
    requires
        tick_trace(old, order, trace, new),
        0 <= i < j < order.len(),
        trace[i].in_range_spec(order[j]),
        trace[i].cell_at(order[j]) is Empty,
        !(trace[i + 1].cell_at(order[j]) is Empty),
    ensures
        trace[j + 1].same_as(trace[j]),
{
    let q = order[j];
    assert(rule_outcome(trace[i].cell_at(order[i]), trace[i], order[i], trace[i + 1]));
    assert(trace[i + 1].in_range_spec(q));
    assert(trace[i + 1].updated_at(q));
    lemma_flag_kept(old, order, trace, new, i + 1, j, q);
    assert(rule_outcome(trace[j].cell_at(order[j]), trace[j], order[j], trace[j + 1]));
}

pub struct World {
    coords: Vec<Pos>,
    pub grid: Grid,
    pixels: Vec<(u8, u8, u8)>,
}

impl World {
    /// The grid is well formed, the visitation order holds each of its
    /// positions exactly once, and its pixel buffer fits in memory.
    pub closed spec fn wf(self) -> bool {
        &&& self.grid.wf()
        &&& self.coords@.to_multiset() == raster_spec(self.grid.dims().x as int, self.grid.dims().y as int).to_multiset()
        &&& forall|i: int| 0 <= i < self.coords@.len() ==> self.grid.in_range_spec(#[trigger] self.coords@[i])
        &&& (self.grid.dims().x * CELL_SIZE) * (self.grid.dims().y * CELL_SIZE) <= usize::MAX
        &&& self.grid.dims().x * CELL_SIZE <= usize::MAX
        &&& self.grid.dims().y * CELL_SIZE <= usize::MAX
    }

    /// The world's grid.
    pub closed spec fn grid_spec(self) -> Grid {
        self.grid
    }

    /// The order in which a tick visits the cells.
    pub closed spec fn order(self) -> Seq<Pos> {
        self.coords@
    }

    /// The colours last exported by `update_mesh`.
    pub closed spec fn pixels_spec(self) -> Seq<(u8, u8, u8)> {
        self.pixels@
    }

    /// An empty world of `size` cells, with a visitation order shuffled once
    /// for good.
    pub fn new(size: Pos, rng: &mut StdRng) -> (w: World)
        requires
            size.x >= 0,
            size.y >= 0,
            (size.x * CELL_SIZE) * (size.y * CELL_SIZE) <= usize::MAX,
            size.x * CELL_SIZE <= usize::MAX,
            size.y * CELL_SIZE <= usize::MAX,
        ensures
            w.wf(),
            w.grid_spec().wf(),
            w.grid_spec().dims() == size,
            w.order().to_multiset() == raster_spec(size.x as int, size.y as int).to_multiset(),
            forall|p: Pos| w.grid_spec().in_range_spec(p) ==> #[trigger] w.grid_spec().cell_at(p) == CellType::Empty,
            forall|p: Pos| w.grid_spec().in_range_spec(p) ==> !#[trigger] w.grid_spec().updated_at(p),
    {
        assert(size.x * size.y <= (size.x * CELL_SIZE) * (size.y * CELL_SIZE)) by (nonlinear_arith)
            requires size.x >= 0, size.y >= 0;
        let grid = Grid::new(size);
        let mut coords: Vec<Pos> = Vec::new();
        let mut y: i32 = 0;
        while y < size.y
            invariant
                0 <= y <= size.y,
                size.x >= 0,
                coords@ == raster_spec(size.x as int, y as int),
            decreases size.y - y,
        {
            let mut x: i32 = 0;
            while x < size.x
                invariant
                    0 <= x <= size.x,
                    0 <= y < size.y,
                    coords@ == raster_spec(size.x as int, y as int) + row_spec(size.x as int, y as int).take(
                        x as int,
                    ),
                decreases size.x - x,
            {
                coords.push(Pos { x, y });
                proof {
                    assert(row_spec(size.x as int, y as int).take(x + 1) =~= row_spec(size.x as int, y as int).take(
                        x as int,
                    ).push(Pos { x, y }));
                }
                x += 1;
            }
            proof {
                assert(row_spec(size.x as int, y as int).take(size.x as int) =~= row_spec(size.x as int, y as int));
            }
            y += 1;
        }
        proof {
            lemma_raster(size.x as int, size.y as int);
        }
        let ghost before = coords@;
        shuffle_positions(&mut coords, rng);
        proof {
            assert forall|i: int| 0 <= i < coords@.len() implies grid.in_range_spec(#[trigger] coords@[i]) by {
                assert(coords@.to_multiset().count(coords@[i]) > 0);
                assert(before.contains(coords@[i]));
                let j = choose|j: int| 0 <= j < before.len() && before[j] == coords@[i];
            }
        }
        World { coords, grid, pixels: Vec::new() }
    }

    /// One tick: clears dried-up fluid and every flag, then applies each
    /// cell's rule once, in the fixed visitation order.
    pub fn simulate(&mut self, rng: &mut StdRng)
        requires
            old(self).wf(),
        ensures
            final(self).wf(),
            final(self).grid_spec().wf(),
            final(self).grid_spec().dims() == old(self).grid_spec().dims(),
            final(self).order() == old(self).order(),
            exists|trace: Seq<Grid>|
                #[trigger] tick_trace(old(self).grid_spec(), old(self).order(), trace, final(self).grid_spec()),
    {
        self.grid.begin_tick();
        let ghost trace: Seq<Grid> = seq![self.grid];
        let n = self.coords.len();
        let mut i: usize = 0;
        while i < n
            invariant
                n == self.coords@.len(),
                i <= n,
                self.wf(),
                self.grid.dims() == old(self).grid.dims(),
                self.coords == old(self).coords,
                trace.len() == i + 1,
                trace[0].swept_from(old(self).grid),
                trace.last() == self.grid,
                forall|j: int|
                    0 <= j < i ==> rule_outcome(
                        trace[j].cell_at(self.coords@[j]),
                        trace[j],
                        self.coords@[j],
                        #[trigger] trace[j + 1],
                    ),
            decreases n - i,
        {
            let coord = self.coords[i];
            let cell = self.grid.get(coord);
            cell.simulate(&mut self.grid, coord, rng);
            proof {
                let prev = trace;
                trace = trace.push(self.grid);
                assert forall|j: int| 0 <= j < i + 1 implies rule_outcome(
                    trace[j].cell_at(self.coords@[j]),
                    trace[j],
                    self.coords@[j],
                    #[trigger] trace[j + 1],
                ) by {
                    if j < i {
                        assert(trace[j] == prev[j] && trace[j + 1] == prev[j + 1]);
                    }
                }
            }
            i += 1;
        }
        assert(tick_trace(old(self).grid_spec(), old(self).order(), trace, self.grid_spec()));
    }

    /// Recomputes the pixel buffer: each cell becomes a `CELL_SIZE` by
    /// `CELL_SIZE` square of its colour.
    pub fn update_mesh(&mut self)
        requires
            old(self).wf(),
        ensures
            final(self).wf(),
            final(self).grid_spec() == old(self).grid_spec(),
            final(self).order() == old(self).order(),
            final(self).pixels_spec().len() == (final(self).grid_spec().dims().x * CELL_SIZE) * (final(self).grid_spec().dims().y
                * CELL_SIZE),
            forall|k: int|
                0 <= k < final(self).pixels_spec().len() ==> #[trigger] final(self).pixels_spec()[k] == pixel_spec(
                    final(self).grid_spec(),
                    k,
                ),
    {
        let size = self.grid.size();
        let wide: usize = size.x as usize * CELL_SIZE;
        let high: usize = size.y as usize * CELL_SIZE;
        let total: usize = wide * high;
        self.pixels.clear();
        let mut k: usize = 0;
        while k < total
            invariant
                self.wf(),
                self.grid == old(self).grid,
                self.coords == old(self).coords,
                size == self.grid.dims(),
                wide == size.x * CELL_SIZE,
                high == size.y * CELL_SIZE,
                total == wide * high,
                k <= total,
                self.pixels@.len() == k,
                forall|j: int| 0 <= j < k ==> #[trigger] self.pixels@[j] == pixel_spec(self.grid, j),
            decreases total - k,
        {
            proof {
                vstd::arithmetic::div_mod::lemma_mod_pos_bound(k as int, wide as int);
                vstd::arithmetic::div_mod::lemma_multiply_divide_lt(k as int, wide as int, high as int);
            }
            let px: usize = k % wide;
            let py: usize = k / wide;
            let p = Pos { x: (px / CELL_SIZE) as i32, y: (py / CELL_SIZE) as i32 };
            let c = self.grid.get(p).color(&self.grid);
            self.pixels.push((c.r, c.g, c.b));
            k += 1;
        }
    }

    /// Whether `p` lies on the world's grid.
    pub fn in_range(&self, p: Pos) -> (r: bool)
        ensures
            r == self.grid_spec().in_range_spec(p),
    {
        self.grid.in_range(p)
    }

    /// Puts `typ` in the cell at `p`.
    pub fn set_cell(&mut self, p: Pos, typ: CellType)
        requires
            old(self).wf(),
            old(self).grid_spec().in_range_spec(p),
            typ.valid(),
        ensures
            final(self).wf(),
            final(self).grid_spec().wf(),
            final(self).grid_spec().is_set(old(self).grid_spec(), p, typ),
            final(self).order() == old(self).order(),
    {
        self.grid.set(p, typ);
    }

    /// The order in which a tick visits the cells.
    pub fn visit_order(&self) -> (r: &Vec<Pos>)
        ensures
            r@ == self.order(),
    {
        &self.coords
    }

    /// The pixel buffer last computed by `update_mesh`.
    pub fn pixels(&self) -> (r: &Vec<(u8, u8, u8)>)
        ensures
            r@ == self.pixels_spec(),
    {
        &self.pixels
    }
}

} // verus!
