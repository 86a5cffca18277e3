//! The cell update rules: what one cell does to the grid in one tick.
use vstd::prelude::*;
use rand::rngs::StdRng;
use crate::geometry::{down_dir, left_dir, right_dir, up_dir, Pos};
use crate::grid::{adjacent_or_same, shifted, Grid};
use crate::mass::{lemma_stable_state_le, lemma_stable_state_rest, stable_state, stable_state_spec, MASS_UNIT, MAX_MASS, MIN_FLUID};
use crate::material::{
    can_signal_spec, transition_spec, Cell, CellType, Fluid, FluidType, GranularType, SolidType, WireType,
    PROB_ONE, TAIL_LIFETIME, VIRUS_LIFETIME,
};
use crate::random::{chance, is_cardinal, random_cardinal};
use crate::registry::{fluid_info, fluid_spec, granular_info, lemma_fluid_records_ok};

verus! {

fn up() -> (d: Pos)
    ensures
        d == up_dir(),
{
    Pos { x: 0, y: -1 }
}

fn down() -> (d: Pos)
    ensures
        d == down_dir(),
{
    Pos { x: 0, y: 1 }
}

fn left() -> (d: Pos)
    ensures
        d == left_dir(),
{
    Pos { x: -1, y: 0 }
}

fn right() -> (d: Pos)
    ensures
        d == right_dir(),
{
    Pos { x: 1, y: 0 }
}

/// `pos` moved by `d` is on the grid and empty.
pub open spec fn empty_at(g: Grid, pos: Pos, d: Pos) -> bool {
    g.in_range_spec(shifted(pos, d)) && g.cell_at(shifted(pos, d)) is Empty
}

/// The rule's own progress invariant: a legal partial update, and, when the
/// updating cell held something, every newly filled cell marked.
pub open spec fn progress_ok(g: Grid, start: Grid, pos: Pos) -> bool {
    &&& g.step_ok(start, pos)
    &&& !(start.cell_at(pos) is Empty) ==> g.fills_marked(start)
}

// ---- the automaton rules over the Moore neighbourhood ----

/// A neighbour that counts towards the life rule's population.
pub open spec fn counts_for_life(c: CellType) -> bool {
    c != CellType::LifeTurningOn && c != CellType::Empty
}

pub open spec fn life_count(s: Seq<Cell>) -> nat
    decreases s.len(),
{
    if s.len() == 0 {
        0
    } else {
        life_count(s.drop_last()) + (if counts_for_life(s.last().typ) { 1nat } else { 0nat })
    }
}

pub open spec fn some_life(s: Seq<Cell>) -> bool {
    exists|i: int| 0 <= i < s.len() && (#[trigger] s[i]).typ == CellType::LifeOn
}

pub open spec fn some_nonlife(s: Seq<Cell>) -> bool {
    exists|i: int| 0 <= i < s.len() && counts_for_life((#[trigger] s[i]).typ) && s[i].typ != CellType::LifeOn
}

/// An empty cell with these neighbours comes to life.
pub open spec fn life_birth(s: Seq<Cell>) -> bool {
    let n = life_count(s);
    (some_life(s) && (n == 3 || n == 5 || n == 6)) || (some_life(s) && some_nonlife(s) && n == 4)
}

/// A live cell with these neighbours stays alive.
pub open spec fn life_survives(s: Seq<Cell>) -> bool {
    let n = life_count(s);
    (some_life(s) && (n == 2 || n == 3)) || (some_life(s) && some_nonlife(s) && n == 4)
}

/// A neighbour that excites a wire of kind `w`.
pub open spec fn excites(c: CellType, w: WireType) -> bool {
    match c {
        CellType::ElectronHead(k) => can_signal_spec(k, w),
        CellType::Wire(WireType::Nor(true)) => w == WireType::Nor(false),
        _ => false,
    }
}

/// A neighbour that latches an unlatched NOR wire `w`.
pub open spec fn latches(c: CellType, w: WireType) -> bool {
    w == WireType::Nor(false) && (c == CellType::Wire(WireType::Nor(true)) || c
        == CellType::ElectronHead(WireType::Normal))
}

pub open spec fn any_excites(s: Seq<Cell>, w: WireType) -> bool {
    exists|i: int| 0 <= i < s.len() && excites((#[trigger] s[i]).typ, w)
}

pub open spec fn any_latches(s: Seq<Cell>, w: WireType) -> bool {
    exists|i: int| 0 <= i < s.len() && latches((#[trigger] s[i]).typ, w)
}

/// What a wire of kind `w` with these neighbours becomes.
pub open spec fn wire_next(s: Seq<Cell>, w: WireType) -> CellType {
    if w == WireType::SignalEmitter {
        CellType::ElectronHead(WireType::SignalEmitter)
    } else if any_excites(s, w) {
        if any_latches(s, w) {
            CellType::Wire(WireType::Nor(true))
        } else {
            CellType::ElectronHead(w)
        }
    } else {
        CellType::Wire(w)
    }
}

/// An unlit fuse with these neighbours catches fire.
pub open spec fn fuse_lit(s: Seq<Cell>) -> bool {
    exists|i: int|
        0 <= i < s.len() && ((#[trigger] s[i]).typ == CellType::Fuse(true) || s[i].typ == CellType::Fire)
}

pub open spec fn tail_next(b: WireType, t: i32) -> CellType {
    if t == 1 {
        CellType::Wire(transition_spec(b))
    } else {
        CellType::ElectronTail(b, (t - 1) as i32)
    }
}

/// The outcome of the rules that draw no random number; `true` for the others.
pub open spec fn deterministic_outcome(typ: CellType, old: Grid, pos: Pos, new: Grid) -> bool {
    let nbrs = old.moore_spec(pos);
    match typ {
        CellType::Empty => if life_birth(nbrs) {
            new.is_spawned(old, pos, CellType::LifeTurningOn)
        } else {
            new.same_as(old)
        },
        CellType::LifeOn => if life_survives(nbrs) {
            new.same_as(old)
        } else {
            new.is_set(old, pos, CellType::Empty)
        },
        CellType::LifeTurningOn => new.is_set(old, pos, CellType::LifeOn),
        CellType::Wire(w) => if wire_next(nbrs, w) == CellType::Wire(w) {
            new.same_as(old)
        } else {
            new.is_set(old, pos, wire_next(nbrs, w))
        },
        CellType::ElectronHead(b) => new.is_set(old, pos, CellType::ElectronTail(b, (TAIL_LIFETIME - 1) as i32)),
        CellType::ElectronTail(b, t) => new.is_set(old, pos, tail_next(b, t)),
        CellType::Fuse(true) => new.is_set(old, pos, CellType::Fire),
        CellType::Fuse(false) => if fuse_lit(nbrs) {
            new.is_set(old, pos, CellType::Fuse(true))
        } else {
            new.same_as(old)
        },
        CellType::Torch => if empty_at(old, pos, up_dir()) {
            new.is_spawned(old, shifted(pos, up_dir()), CellType::Fire)
        } else {
            new.same_as(old)
        },
        CellType::Destroyer => if old.in_range_spec(shifted(pos, up_dir())) {
            new.is_set(old, shifted(pos, up_dir()), CellType::Empty)
        } else {
            new.same_as(old)
        },
        CellType::WaterGenerator => if empty_at(old, pos, down_dir()) {
            new.is_spawned(old, shifted(pos, down_dir()), CellType::Fluid(FluidType::Water, MASS_UNIT))
        } else {
            new.same_as(old)
        },
        CellType::SandGenerator => if empty_at(old, pos, down_dir()) {
            new.is_spawned(
                old,
                shifted(pos, down_dir()),
                CellType::Granular(GranularType::Sand, false, false),
            )
        } else {
            new.same_as(old)
        },
        CellType::Solid(_) => new.same_as(old),
        _ => true,
    }
}

/// The mass of fluid kind `k` in the cell at `p` (zero off the grid and for
/// anything else).
pub open spec fn mass_of(g: Grid, p: Pos, k: FluidType) -> int {
    if g.in_range_spec(p) {
        match g.cell_at(p) {
            CellType::Fluid(k2, m) => if k2 == k {
                m as int
            } else {
                0
            },
            _ => 0,
        }
    } else {
        0
    }
}

pub open spec fn at(pos: Pos, dx: int, dy: int) -> Pos {
    Pos { x: (pos.x + dx) as i32, y: (pos.y + dy) as i32 }
}

/// The mass of fluid kind `k` in the 3x3 block around `pos`.
pub open spec fn block_mass(g: Grid, pos: Pos, k: FluidType) -> int {
    mass_of(g, at(pos, -1, -1), k) + mass_of(g, at(pos, 0, -1), k) + mass_of(g, at(pos, 1, -1), k)
        + mass_of(g, at(pos, -1, 0), k) + mass_of(g, at(pos, 0, 0), k) + mass_of(g, at(pos, 1, 0), k)
        + mass_of(g, at(pos, -1, 1), k) + mass_of(g, at(pos, 0, 1), k) + mass_of(g, at(pos, 1, 1), k)
}

proof fn lemma_block_mass_set(old: Grid, new: Grid, pos: Pos, q: Pos, c: CellType)
    requires
        new.is_set(old, q, c),
        old.in_range_spec(pos),
        old.in_range_spec(q),
        adjacent_or_same(q, pos),
    ensures
        forall|k: FluidType| #[trigger] block_mass(new, pos, k) == block_mass(old, pos, k) - mass_of(old, q, k)
            + mass_of(new, q, k),
{
    assert forall|k: FluidType| #[trigger] block_mass(new, pos, k) == block_mass(old, pos, k) - mass_of(old, q, k)
        + mass_of(new, q, k) by {
        assert(q == at(pos, q.x - pos.x, q.y - pos.y));
        assert forall|dx: int, dy: int| -1 <= dx <= 1 && -1 <= dy <= 1 && at(pos, dx, dy) != q implies #[trigger] mass_of(
            new,
            at(pos, dx, dy),
            k,
        ) == mass_of(old, at(pos, dx, dy), k) by {
            let p = at(pos, dx, dy);
            if new.in_range_spec(p) {
                assert(new.cell_at(p) == old.cell_at(p));
            }
        }
    }
}

proof fn lemma_block_mass_same_cells(old: Grid, new: Grid, pos: Pos)
    requires
        new.dims() == old.dims(),
        forall|p: Pos| new.in_range_spec(p) ==> #[trigger] new.cell_at(p) == old.cell_at(p),
    ensures
        forall|k: FluidType| #[trigger] block_mass(new, pos, k) == block_mass(old, pos, k),
{
    assert forall|k: FluidType| #[trigger] block_mass(new, pos, k) == block_mass(old, pos, k) by {
        assert forall|dx: int, dy: int| #[trigger] mass_of(new, at(pos, dx, dy), k) == mass_of(old, at(pos, dx, dy), k) by {
            let p = at(pos, dx, dy);
            if new.in_range_spec(p) {
                assert(new.cell_at(p) == old.cell_at(p));
            }
        }
    }
}

// ---- grid writes inside one cell's update ----

/// Writes `c` into the cell at `q`, next to the updating cell at `pos`.
fn put(grid: &mut Grid, Ghost(start): Ghost<Grid>, pos: Pos, q: Pos, c: CellType)
    requires
        start.wf(),
        start.in_range_spec(pos),
        old(grid).step_ok(start, pos),
        old(grid).in_range_spec(q),
        adjacent_or_same(q, pos),
        c.valid(),
    ensures
        final(grid).step_ok(start, pos),
        final(grid).is_set(*old(grid), q, c),
        progress_ok(*old(grid), start, pos) && ((c is Empty) || !(old(grid).cell_at(q) is Empty))
            ==> progress_ok(*final(grid), start, pos),
        start.cell_at(pos) is Empty ==> progress_ok(*final(grid), start, pos),
        old(grid).fills_marked(start) && ((c is Empty) || !(old(grid).cell_at(q) is Empty))
            ==> final(grid).fills_marked(start),
        forall|k: FluidType| #[trigger] block_mass(*final(grid), pos, k) == block_mass(*old(grid), pos, k) - mass_of(
            *old(grid),
            q,
            k,
        ) + mass_of(*final(grid), q, k),
{
    let ghost before = *grid;
    grid.set(q, c);
    proof {
        lemma_block_mass_set(before, *grid, pos, q, c);
    }
}

/// Marks the cell at `q` updated.
fn mark(grid: &mut Grid, Ghost(start): Ghost<Grid>, pos: Pos, q: Pos)
    requires
        start.wf(),
        old(grid).step_ok(start, pos),
        old(grid).in_range_spec(q),
        adjacent_or_same(q, pos),
    ensures
        final(grid).step_ok(start, pos),
        final(grid).updated_at(q),
        forall|p: Pos| final(grid).in_range_spec(p) ==> #[trigger] final(grid).cell_at(p) == old(grid).cell_at(p),
        forall|p: Pos| final(grid).in_range_spec(p) && p != q ==> #[trigger] final(grid).updated_at(p)
            == old(grid).updated_at(p),
        progress_ok(*old(grid), start, pos) ==> progress_ok(*final(grid), start, pos),
        old(grid).fills_marked(start) ==> final(grid).fills_marked(start),
{
    grid.update(q);
}

/// Spawns `c` in the cell at `q`: writes it and marks it updated, so that it
/// does not act again in this tick.
fn spawn(grid: &mut Grid, Ghost(start): Ghost<Grid>, pos: Pos, q: Pos, c: CellType)
    requires
        start.wf(),
        start.in_range_spec(pos),
        old(grid).step_ok(start, pos),
        old(grid).in_range_spec(q),
        adjacent_or_same(q, pos),
        c.valid(),
    ensures
        final(grid).step_ok(start, pos),
        final(grid).is_spawned(*old(grid), q, c),
        old(grid).fills_marked(start) ==> final(grid).fills_marked(start),
        progress_ok(*old(grid), start, pos) ==> progress_ok(*final(grid), start, pos),
{
    let ghost before = *grid;
    grid.set(q, c);
    grid.update(q);
    proof {
        if before.fills_marked(start) {
            assert forall|p: Pos|
                grid.in_range_spec(p) && (start.cell_at(p) is Empty) && !(#[trigger] grid.cell_at(p) is Empty)
                    implies grid.updated_at(p) by {
                if p != q {
                    assert(before.cell_at(p) == grid.cell_at(p));
                }
            }
        }
    }
}

/// Moves a body `c` into `q`, and marks it updated so that it does not move
/// again this tick. A body faster than one cell per tick is left unmarked
/// with the probability that makes up its extra speed.
fn place_moving(
    grid: &mut Grid,
    Ghost(start): Ghost<Grid>,
    pos: Pos,
    q: Pos,
    c: CellType,
    fall_speed: u32,
    rng: &mut StdRng,
)
    requires
        start.wf(),
        start.in_range_spec(pos),
        old(grid).step_ok(start, pos),
        old(grid).in_range_spec(q),
        adjacent_or_same(q, pos),
        c.valid(),
        fall_speed <= 2 * PROB_ONE,
    ensures
        final(grid).step_ok(start, pos),
        final(grid).cell_at(q) == c,
        forall|p: Pos| final(grid).in_range_spec(p) && p != q ==> #[trigger] final(grid).cell_at(p)
            == old(grid).cell_at(p),
        forall|p: Pos| final(grid).in_range_spec(p) && p != q ==> #[trigger] final(grid).updated_at(p)
            == old(grid).updated_at(p),
        fall_speed <= PROB_ONE ==> final(grid).updated_at(q),
        fall_speed <= PROB_ONE && progress_ok(*old(grid), start, pos) ==> progress_ok(*final(grid), start, pos),
        forall|k: FluidType| #[trigger] block_mass(*final(grid), pos, k) == block_mass(*old(grid), pos, k) - mass_of(
            *old(grid),
            q,
            k,
        ) + mass_of(*final(grid), q, k),
{
    let ghost before = *grid;
    put(grid, Ghost(start), pos, q, c);
    let ghost placed = *grid;
    if fall_speed <= PROB_ONE || chance(rng, 2 * PROB_ONE - fall_speed) {
        mark(grid, Ghost(start), pos, q);
    }
    proof {
        lemma_block_mass_same_cells(placed, *grid, pos);
        assert(mass_of(*grid, q, FluidType::Water) == mass_of(placed, q, FluidType::Water));
        assert forall|k: FluidType| mass_of(*grid, q, k) == mass_of(placed, q, k) by {}
    }
    proof {
        if fall_speed <= PROB_ONE && progress_ok(before, start, pos) && !(start.cell_at(pos) is Empty) {
            assert forall|p: Pos|
                grid.in_range_spec(p) && (start.cell_at(p) is Empty) && !(#[trigger] grid.cell_at(p) is Empty)
                    implies grid.updated_at(p) by {
                if p != q {
                    assert(before.cell_at(p) == grid.cell_at(p));
                    assert(before.updated_at(p));
                }
            }
        }
    }
}

/// Whether `pos + d` is on the grid and empty.
fn free(grid: &Grid, pos: Pos, d: Pos) -> (r: bool)
    requires
        grid.wf(),
        grid.in_range_spec(pos),
        -1 <= d.x <= 1,
        -1 <= d.y <= 1,
    ensures
        r == empty_at(*grid, pos, d),
{
    let q = pos.plus(d);
    if grid.in_range(q) {
        grid.get(q).typ == CellType::Empty
    } else {
        false
    }
}

/// Population of the life rule: how many neighbours count, whether one is
/// alive and whether one is something else.
fn life_stats(nbrs: &Vec<Cell>) -> (r: (u32, bool, bool))
    requires
        nbrs@.len() <= 8,
    ensures
        r.0 == life_count(nbrs@),
        r.1 == some_life(nbrs@),
        r.2 == some_nonlife(nbrs@),
{
    let mut count: u32 = 0;
    let mut alive = false;
    let mut other = false;
    let mut i: usize = 0;
    while i < nbrs.len()
        invariant
            nbrs@.len() <= 8,
            i <= nbrs@.len(),
            count == life_count(nbrs@.take(i as int)),
            count <= i,
            alive == some_life(nbrs@.take(i as int)),
            other == some_nonlife(nbrs@.take(i as int)),
        decreases nbrs@.len() - i,
    {
        let c = nbrs[i].typ;
        proof {
            assert(nbrs@.take(i + 1).drop_last() =~= nbrs@.take(i as int));
            let t = nbrs@.take(i + 1);
            if some_life(t) {
                let j = choose|j: int| 0 <= j < t.len() && (#[trigger] t[j]).typ == CellType::LifeOn;
                if j < i {
                    assert(nbrs@.take(i as int)[j] == t[j]);
                }
            }
            if some_nonlife(t) {
                let j = choose|j: int| 0 <= j < t.len() && counts_for_life((#[trigger] t[j]).typ) && t[j].typ != CellType::LifeOn;
                if j < i {
                    assert(nbrs@.take(i as int)[j] == t[j]);
                }
            }
            if some_life(nbrs@.take(i as int)) {
                let j = choose|j: int| 0 <= j < i && (#[trigger] nbrs@.take(i as int)[j]).typ == CellType::LifeOn;
                assert(t[j] == nbrs@.take(i as int)[j]);
            }
            if some_nonlife(nbrs@.take(i as int)) {
                let j = choose|j: int| 0 <= j < i && counts_for_life((#[trigger] nbrs@.take(i as int)[j]).typ) && nbrs@.take(i as int)[j].typ != CellType::LifeOn;
                assert(t[j] == nbrs@.take(i as int)[j]);
            }
            assert(t[i as int] == nbrs@[i as int]);
        }
        if c != CellType::LifeTurningOn && c != CellType::Empty {
            if c == CellType::LifeOn {
                alive = true;
            } else {
                other = true;
            }
            count += 1;
        }
        i += 1;
    }
    assert(nbrs@.take(nbrs@.len() as int) =~= nbrs@);
    (count, alive, other)
}

/// Whether some neighbour excites a wire of kind `w`, and whether some
/// neighbour latches it.
fn wire_stats(nbrs: &Vec<Cell>, w: WireType) -> (r: (bool, bool))
    ensures
        r.0 == any_excites(nbrs@, w),
        r.1 == any_latches(nbrs@, w),
{
    let mut excited = false;
    let mut latch = false;
    let mut i: usize = 0;
    while i < nbrs.len()
        invariant
            i <= nbrs@.len(),
            excited == (exists|j: int| 0 <= j < i && excites((#[trigger] nbrs@[j]).typ, w)),
            latch == (exists|j: int| 0 <= j < i && latches((#[trigger] nbrs@[j]).typ, w)),
        decreases nbrs@.len() - i,
    {
        let c = nbrs[i].typ;
        if let CellType::ElectronHead(k) = c {
            if k.can_signal_to(w) {
                excited = true;
            }
        }
        if w == WireType::Nor(false) {
            if c == CellType::Wire(WireType::Nor(true)) {
                excited = true;
                latch = true;
            }
            if c == CellType::ElectronHead(WireType::Normal) {
                latch = true;
            }
        }
        assert(excites(nbrs@[i as int].typ, w) ==> excited);
        assert(latches(nbrs@[i as int].typ, w) ==> latch);
        i += 1;
    }
    (excited, latch)
}

/// Whether some neighbour is a burning fuse or fire.
fn fuse_stats(nbrs: &Vec<Cell>) -> (r: bool)
    ensures
        r == fuse_lit(nbrs@),
{
    let mut i: usize = 0;
    while i < nbrs.len()
        invariant
            i <= nbrs@.len(),
            forall|j: int|
                0 <= j < i ==> (#[trigger] nbrs@[j]).typ != CellType::Fuse(true) && nbrs@[j].typ
                    != CellType::Fire,
        decreases nbrs@.len() - i,
    {
        let c = nbrs[i].typ;
        if c == CellType::Fuse(true) || c == CellType::Fire {
            return true;
        }
        i += 1;
    }
    false
}

/// The rules of the life automaton and of the wire circuits, which look at
/// the Moore neighbourhood and draw no random number.
fn step_automaton(typ: CellType, grid: &mut Grid, pos: Pos)
    requires
        old(grid).wf(),
        old(grid).in_range_spec(pos),
        typ.valid(),
        typ is Empty || typ is LifeOn || typ is LifeTurningOn || typ is Wire || typ is ElectronHead
            || typ is ElectronTail || typ is Fuse,
    ensures
        final(grid).step_ok(*old(grid), pos),
        deterministic_outcome(typ, *old(grid), pos, *final(grid)),
        old(grid).cell_at(pos) == typ ==> final(grid).fills_marked(*old(grid)),
{
    let ghost start = *grid;
    match typ {
        CellType::Empty => {
            let nbrs = grid.moore(pos);
            let (n, alive, other) = life_stats(&nbrs);
            if (alive && (n == 3 || n == 5 || n == 6)) || (alive && other && n == 4) {
                spawn(grid, Ghost(start), pos, pos, CellType::LifeTurningOn);
            }
        },
        CellType::LifeOn => {
            let nbrs = grid.moore(pos);
            let (n, alive, other) = life_stats(&nbrs);
            if (!alive || (n != 2 && n != 3)) && (!alive || !other || n != 4) {
                put(grid, Ghost(start), pos, pos, CellType::Empty);
            }
        },
        CellType::LifeTurningOn => {
            put(grid, Ghost(start), pos, pos, CellType::LifeOn);
        },
        CellType::Wire(w) => {
            let nbrs = grid.moore(pos);
            let (excited, latch) = wire_stats(&nbrs, w);
            if w == WireType::SignalEmitter {
                put(grid, Ghost(start), pos, pos, CellType::ElectronHead(WireType::SignalEmitter));
            } else if excited {
                if latch {
                    put(grid, Ghost(start), pos, pos, CellType::Wire(WireType::Nor(true)));
                } else {
                    put(grid, Ghost(start), pos, pos, CellType::ElectronHead(w));
                }
            }
        },
        CellType::ElectronHead(b) => {
            // the tail lives on for the rest of the wire's refractory time
            put(grid, Ghost(start), pos, pos, CellType::ElectronTail(b, TAIL_LIFETIME - 1));
        },
        CellType::ElectronTail(b, t) => {
            let t = t - 1;
            if t == 0 {
                put(grid, Ghost(start), pos, pos, CellType::Wire(b.transition_to()));
            } else {
                put(grid, Ghost(start), pos, pos, CellType::ElectronTail(b, t));
            }
        },
        CellType::Fuse(true) => {
            put(grid, Ghost(start), pos, pos, CellType::Fire);
        },
        CellType::Fuse(false) => {
            let nbrs = grid.moore(pos);
            if fuse_stats(&nbrs) {
                put(grid, Ghost(start), pos, pos, CellType::Fuse(true));
            }
        },
        _ => {},
    }
}

/// Torches, destroyers and generators: they act on the cell above or below.
fn step_emitter(typ: CellType, grid: &mut Grid, pos: Pos)
    requires
        old(grid).wf(),
        old(grid).in_range_spec(pos),
        typ is Torch || typ is Destroyer || typ is WaterGenerator || typ is SandGenerator,
    ensures
        final(grid).step_ok(*old(grid), pos),
        deterministic_outcome(typ, *old(grid), pos, *final(grid)),
        final(grid).fills_marked(*old(grid)),
{
    let ghost start = *grid;
    match typ {
        CellType::Torch => {
            if free(grid, pos, up()) {
                spawn(grid, Ghost(start), pos, pos.plus(up()), CellType::Fire);
            }
        },
        CellType::Destroyer => {
            let q = pos.plus(up());
            if grid.in_range(q) {
                put(grid, Ghost(start), pos, q, CellType::Empty);
            }
        },
        CellType::WaterGenerator => {
            if free(grid, pos, down()) {
                spawn(grid, Ghost(start), pos, pos.plus(down()), CellType::Fluid(FluidType::Water, MASS_UNIT));
            }
        },
        CellType::SandGenerator => {
            if free(grid, pos, down()) {
                spawn(
                    grid,
                    Ghost(start),
                    pos,
                    pos.plus(down()),
                    CellType::Granular(GranularType::Sand, false, false),
                );
            }
        },
        _ => {},
    }
}

/// `p` is one of the four side neighbours of `pos`.
pub open spec fn side_neighbour(pos: Pos, p: Pos) -> bool {
    (p.x == pos.x && (p.y == pos.y + 1 || p.y == pos.y - 1)) || (p.y == pos.y && (p.x == pos.x + 1 || p.x
        == pos.x - 1))
}

/// A cell that fire leaves behind when it spreads: fire or steam.
pub open spec fn fire_product(c: CellType) -> bool {
    c == CellType::Fire || (c is Fluid && c->Fluid_0 == FluidType::Steam)
}

/// What holds of every outcome of the fire rule: the fire stays or goes out,
/// and every other changed cell is a side neighbour that caught fire or boiled.
pub open spec fn fire_outcome(old: Grid, pos: Pos, new: Grid) -> bool {
    &&& new.dims() == old.dims()
    &&& new.cell_at(pos) == old.cell_at(pos) || new.cell_at(pos) is Empty
    &&& forall|p: Pos|
        new.in_range_spec(p) && p != pos && #[trigger] new.cell_at(p) != old.cell_at(p) ==> side_neighbour(pos, p)
            && fire_product(new.cell_at(p))
}

/// Each of the four side neighbours of `pos` is on the grid and holds water.
pub open spec fn water_all_round(g: Grid, pos: Pos) -> bool {
    forall|d: Pos|
        #[trigger] is_cardinal(d) ==> g.in_range_spec(shifted(pos, d)) && g.cell_at(shifted(pos, d)) is Fluid
            && g.cell_at(shifted(pos, d))->Fluid_0 == FluidType::Water
}

/// Each of the four side neighbours of `pos` is on the grid and not empty.
pub open spec fn matter_all_round(g: Grid, pos: Pos) -> bool {
    forall|d: Pos| #[trigger] is_cardinal(d) ==> g.in_range_spec(shifted(pos, d)) && !(g.cell_at(shifted(pos, d)) is Empty)
}

/// Each of the four side neighbours of `pos` is on the grid and a plant.
pub open spec fn plants_all_round(g: Grid, pos: Pos) -> bool {
    forall|d: Pos| #[trigger] is_cardinal(d) ==> g.in_range_spec(shifted(pos, d)) && g.cell_at(shifted(pos, d)) == CellType::Plant
}

/// The grid after `c1` is spawned at `q1` and then `c2` written at `q2`.
pub open spec fn set_twice(new: Grid, old: Grid, q1: Pos, c1: CellType, q2: Pos, c2: CellType) -> bool {
    exists|mid: Grid| #[trigger] mid.is_spawned(old, q1, c1) && new.is_set(mid, q2, c2)
}

/// What holds of every outcome of the rules of plants, eaters, viruses and
/// shockwave fragments; `true` for the other cell types.
pub open spec fn reactive_outcome(typ: CellType, old: Grid, pos: Pos, new: Grid) -> bool {
    match typ {
        CellType::Plant => (!water_all_round(old, pos) && new.same_as(old)) || exists|d: Pos|
            is_cardinal(d) && old.in_range_spec(#[trigger] shifted(pos, d)) && (old.cell_at(shifted(pos, d)) is Fluid
                && old.cell_at(shifted(pos, d))->Fluid_0 == FluidType::Water) && new.is_set(
                old,
                shifted(pos, d),
                CellType::Plant,
            ),
        CellType::Eater => (!matter_all_round(old, pos) && (new.same_as(old) || new.is_set(old, pos, CellType::Empty)))
            || exists|d: Pos|
            is_cardinal(d) && old.in_range_spec(#[trigger] shifted(pos, d)) && !(old.cell_at(
                shifted(pos, d),
            ) is Empty) && new.is_set(old, shifted(pos, d), CellType::Eater),
        CellType::Virus(t) => new.is_set(
            old,
            pos,
            if t <= 0 {
                CellType::Empty
            } else {
                CellType::Virus((t - 1) as i32)
            },
        ) || (t >= 2 && exists|d: Pos|
            is_cardinal(d) && #[trigger] empty_at(old, pos, d) && new.is_spawned(
                old,
                shifted(pos, d),
                CellType::Virus(VIRUS_LIFETIME),
            )),
        CellType::Fire => fire_outcome(old, pos, new) && (plants_all_round(old, pos) ==> exists|p: Pos|
            side_neighbour(pos, p) && old.cell_at(p) == CellType::Plant && #[trigger] new.cell_at(p) == CellType::Fire),
        CellType::ExplodingNitro(d) => new.is_set(old, pos, CellType::Empty) || (old.in_range_spec(shifted(pos, d)) && (
        new.is_spawned(old, shifted(pos, d), CellType::ExplodingNitro(d)) || set_twice(
            new,
            old,
            shifted(pos, d),
            CellType::ExplodingNitro(d),
            pos,
            CellType::Empty,
        ))),
        _ => true,
    }
}

/// Fire: rises, drifts or sinks into empty space, may die out, and ignites or boils its neighbours.
fn step_fire(grid: &mut Grid, pos: Pos, rng: &mut StdRng)
    requires
        old(grid).wf(),
        old(grid).in_range_spec(pos),
    ensures
        final(grid).step_ok(*old(grid), pos),
        fire_outcome(*old(grid), pos, *final(grid)),
        reactive_outcome(CellType::Fire, *old(grid), pos, *final(grid)),
        old(grid).cell_at(pos) == CellType::Fire ==> final(grid).fills_marked(*old(grid)),
{
    let ghost start = *grid;
    proof {
        assert(is_cardinal(up_dir()) && is_cardinal(down_dir()) && is_cardinal(left_dir()) && is_cardinal(right_dir()));
    }
    if chance(rng, 180_000) && free(grid, pos, up()) {
        spawn(grid, Ghost(start), pos, pos.plus(up()), CellType::Fire);
        put(grid, Ghost(start), pos, pos, CellType::Empty);
        return;
    }
    if chance(rng, 50_000) && free(grid, pos, left()) {
        spawn(grid, Ghost(start), pos, pos.plus(left()), CellType::Fire);
        put(grid, Ghost(start), pos, pos, CellType::Empty);
        return;
    }
    if chance(rng, 50_000) && free(grid, pos, right()) {
        spawn(grid, Ghost(start), pos, pos.plus(right()), CellType::Fire);
        put(grid, Ghost(start), pos, pos, CellType::Empty);
        return;
    }
    if chance(rng, 30_000) && free(grid, pos, down()) {
        spawn(grid, Ghost(start), pos, pos.plus(down()), CellType::Fire);
        put(grid, Ghost(start), pos, pos, CellType::Empty);
        return;
    }
    if chance(rng, 30_000) {
        put(grid, Ghost(start), pos, pos, CellType::Empty);
    }
    let mut k: u32 = 0;
    let ghost mut lit = pos;
    while k < 3
        invariant
            start.wf(),
            start.in_range_spec(pos),
            grid.step_ok(start, pos),
            fire_outcome(start, pos, *grid),
            grid.fills_marked(start),
            k <= 3,
            k == 0 ==> forall|p: Pos| grid.in_range_spec(p) && p != pos ==> #[trigger] grid.cell_at(p) == start.cell_at(p),
            k > 0 && plants_all_round(start, pos) ==> grid.in_range_spec(lit),
            k > 0 && plants_all_round(start, pos) ==> side_neighbour(pos, lit) && start.cell_at(lit) == CellType::Plant
                && grid.cell_at(lit) == CellType::Fire,
        decreases 3 - k,
    {
        let d = random_cardinal(rng);
        let nb = pos.plus(d);
        let ghost before = *grid;
        proof {
            if plants_all_round(start, pos) {
                assert(start.in_range_spec(shifted(pos, d)));
                assert(nb == shifted(pos, d));
            }
        }
        if grid.in_range(nb) {
            match grid.get(nb).typ {
                CellType::Plant => put(grid, Ghost(start), pos, nb, CellType::Fire),
                CellType::Fluid(FluidType::Oil, _) => put(grid, Ghost(start), pos, nb, CellType::Fire),
                CellType::Fluid(FluidType::Methane, _) => put(grid, Ghost(start), pos, nb, CellType::Fire),
                CellType::Fluid(FluidType::Water, amount) => put(
                    grid,
                    Ghost(start),
                    pos,
                    nb,
                    CellType::Fluid(FluidType::Steam, amount),
                ),
                CellType::Solid(SolidType::Ice) => put(
                    grid,
                    Ghost(start),
                    pos,
                    nb,
                    CellType::Fluid(FluidType::Steam, MASS_UNIT),
                ),
                _ => {},
            }
        }
        proof {
            if plants_all_round(start, pos) {
                if k == 0 {
                    lit = nb;
                    assert(before.cell_at(nb) == CellType::Plant);
                } else if nb != lit {
                    assert(grid.cell_at(lit) == before.cell_at(lit));
                }
            }
        }
        k += 1;
    }
    proof {
        if plants_all_round(start, pos) {
            assert(grid.cell_at(lit) == CellType::Fire);
        }
    }
}

/// Plants grow into a neighbouring water cell.
fn step_plant(grid: &mut Grid, pos: Pos, rng: &mut StdRng)
    requires
        old(grid).wf(),
        old(grid).in_range_spec(pos),
    ensures
        final(grid).step_ok(*old(grid), pos),
        reactive_outcome(CellType::Plant, *old(grid), pos, *final(grid)),
        old(grid).cell_at(pos) == CellType::Plant ==> final(grid).fills_marked(*old(grid)),
{
    let ghost start = *grid;
    let d = random_cardinal(rng);
    let nb = pos.plus(d);
    if grid.in_range(nb) {
        if let CellType::Fluid(FluidType::Water, _) = grid.get(nb).typ {
            put(grid, Ghost(start), pos, nb, CellType::Plant);
            assert(nb == shifted(pos, d));
        }
    }
}

/// Eaters eat a neighbour, or starve now and then next to empty space.
fn step_eater(grid: &mut Grid, pos: Pos, rng: &mut StdRng)
    requires
        old(grid).wf(),
        old(grid).in_range_spec(pos),
    ensures
        final(grid).step_ok(*old(grid), pos),
        reactive_outcome(CellType::Eater, *old(grid), pos, *final(grid)),
        old(grid).cell_at(pos) == CellType::Eater ==> final(grid).fills_marked(*old(grid)),
{
    let ghost start = *grid;
    let d = random_cardinal(rng);
    let nb = pos.plus(d);
    if grid.in_range(nb) {
        if grid.get(nb).typ == CellType::Empty {
            if chance(rng, 250_000) {
                put(grid, Ghost(start), pos, pos, CellType::Empty);
            }
        } else {
            put(grid, Ghost(start), pos, nb, CellType::Eater);
            assert(nb == shifted(pos, d));
        }
    }
}

/// Viruses spread into empty neighbours while young, and age otherwise.
fn step_virus(lifetime: i32, grid: &mut Grid, pos: Pos, rng: &mut StdRng)
    requires
        old(grid).wf(),
        old(grid).in_range_spec(pos),
    ensures
        final(grid).step_ok(*old(grid), pos),
        reactive_outcome(CellType::Virus(lifetime), *old(grid), pos, *final(grid)),
        old(grid).cell_at(pos) == CellType::Virus(lifetime) ==> final(grid).fills_marked(*old(grid)),
{
    let ghost start = *grid;
    if chance(rng, 100_000) && free(grid, pos, up()) && lifetime >= 2 {
        spawn(grid, Ghost(start), pos, pos.plus(up()), CellType::Virus(VIRUS_LIFETIME));
        assert(is_cardinal(up_dir()) && empty_at(start, pos, up_dir()));
        return;
    }
    if chance(rng, 100_000) && free(grid, pos, left()) && lifetime >= 2 {
        spawn(grid, Ghost(start), pos, pos.plus(left()), CellType::Virus(VIRUS_LIFETIME));
        assert(is_cardinal(left_dir()) && empty_at(start, pos, left_dir()));
        return;
    }
    if chance(rng, 100_000) && free(grid, pos, right()) && lifetime >= 2 {
        spawn(grid, Ghost(start), pos, pos.plus(right()), CellType::Virus(VIRUS_LIFETIME));
        assert(is_cardinal(right_dir()) && empty_at(start, pos, right_dir()));
        return;
    }
    if chance(rng, 100_000) && free(grid, pos, down()) && lifetime >= 2 {
        spawn(grid, Ghost(start), pos, pos.plus(down()), CellType::Virus(VIRUS_LIFETIME));
        assert(is_cardinal(down_dir()) && empty_at(start, pos, down_dir()));
        return;
    }
    if lifetime <= 0 {
        put(grid, Ghost(start), pos, pos, CellType::Empty);
    } else {
        put(grid, Ghost(start), pos, pos, CellType::Virus(lifetime - 1));
    }
}

/// A shockwave fragment travels on in its direction, or dies out.
fn step_shockwave(dir: Pos, grid: &mut Grid, pos: Pos, rng: &mut StdRng)
    requires
        old(grid).wf(),
        old(grid).in_range_spec(pos),
        -1 <= dir.x <= 1,
        -1 <= dir.y <= 1,
    ensures
        final(grid).step_ok(*old(grid), pos),
        reactive_outcome(CellType::ExplodingNitro(dir), *old(grid), pos, *final(grid)),
        old(grid).cell_at(pos) == CellType::ExplodingNitro(dir) ==> final(grid).fills_marked(*old(grid)),
{
    let ghost start = *grid;
    let q = pos.plus(dir);
    if grid.in_range(q) && chance(rng, 600_000) {
        spawn(grid, Ghost(start), pos, q, CellType::ExplodingNitro(dir));
        let ghost mid = *grid;
        if chance(rng, 100_000) {
            put(grid, Ghost(start), pos, pos, CellType::Empty);
            assert(mid.is_spawned(start, shifted(pos, dir), CellType::ExplodingNitro(dir)));
        }
    } else {
        put(grid, Ghost(start), pos, pos, CellType::Empty);
    }
}

/// Fire, plants, eaters, viruses and nitro shockwaves: each acts on one or
/// more randomly chosen neighbours.
fn step_reactive(typ: CellType, grid: &mut Grid, pos: Pos, rng: &mut StdRng)
    requires
        old(grid).wf(),
        old(grid).in_range_spec(pos),
        typ.valid(),
        typ is Fire || typ is Plant || typ is Eater || typ is Virus || typ is ExplodingNitro,
    ensures
        final(grid).step_ok(*old(grid), pos),
        reactive_outcome(typ, *old(grid), pos, *final(grid)),
        old(grid).cell_at(pos) == typ ==> final(grid).fills_marked(*old(grid)),
{
    match typ {
        CellType::Fire => step_fire(grid, pos, rng),
        CellType::Plant => step_plant(grid, pos, rng),
        CellType::Eater => step_eater(grid, pos, rng),
        CellType::Virus(lifetime) => step_virus(lifetime, grid, pos, rng),
        CellType::ExplodingNitro(dir) => step_shockwave(dir, grid, pos, rng),
        _ => {},
    }
}

pub open spec fn is_granular_of(c: CellType, id: GranularType) -> bool {
    match c {
        CellType::Granular(k, _, _) => k == id,
        _ => false,
    }
}

/// The directions a grain may move in: down, diagonally down, sideways.
pub open spec fn grain_dir(d: Pos) -> bool {
    (d.y == 1 && -1 <= d.x <= 1) || (d.y == 0 && (d.x == 1 || d.x == -1))
}

/// `new` is `old` with the grain of kind `id` at `pos` moved to `q`, and `q`
/// marked updated.
pub open spec fn grain_moved(old: Grid, new: Grid, pos: Pos, q: Pos, id: GranularType) -> bool {
    &&& new.dims() == old.dims()
    &&& new.cell_at(pos) is Empty
    &&& is_granular_of(new.cell_at(q), id)
    &&& new.updated_at(q)
    &&& forall|p: Pos| new.in_range_spec(p) && p != pos && p != q ==> #[trigger] new.cell_at(p) == old.cell_at(p)
    &&& forall|p: Pos| new.in_range_spec(p) && p != q ==> #[trigger] new.updated_at(p) == old.updated_at(p)
}

/// A grain of kind `id` at `pos` stayed, or moved to a free cell below,
/// diagonally below or beside it; it moved if the cell below was free, and
/// straight down if neither lower diagonal was.
pub open spec fn grain_step(id: GranularType, old: Grid, pos: Pos, new: Grid) -> bool {
    &&& new.same_as(old) || exists|d: Pos|
        grain_dir(d) && #[trigger] empty_at(old, pos, d) && grain_moved(old, new, pos, shifted(pos, d), id)
    &&& empty_at(old, pos, down_dir()) ==> exists|d: Pos|
        grain_dir(d) && d.y == 1 && #[trigger] empty_at(old, pos, d) && grain_moved(old, new, pos, shifted(pos, d), id)
    &&& empty_at(old, pos, down_dir()) && !empty_at(old, pos, Pos { x: -1i32, y: 1 }) && !empty_at(
        old,
        pos,
        Pos { x: 1, y: 1 },
    ) ==> grain_moved(old, new, pos, shifted(pos, down_dir()), id)
}

/// A nitro grain detonated: it is gone, and each of the eight cells around
/// it holds a marked shockwave fragment travelling away from it.
pub open spec fn nitro_burst(old: Grid, pos: Pos, new: Grid) -> bool {
    &&& new.cell_at(pos) is Empty
    &&& forall|d: Pos|
        -1 <= d.x <= 1 && -1 <= d.y <= 1 && d != Pos { x: 0, y: 0 } ==> #[trigger] new.cell_at(shifted(pos, d))
            == CellType::ExplodingNitro(d) && new.updated_at(shifted(pos, d))
}

/// What holds of every outcome of a grain's rule.
pub open spec fn grain_outcome(id: GranularType, old: Grid, pos: Pos, new: Grid) -> bool {
    if id == GranularType::Nitro {
        nitro_burst(old, pos, new) || grain_step(id, old, pos, new)
    } else {
        grain_step(id, old, pos, new)
    }
}

/// The grains: fall, slide down diagonally or spread sideways into empty
/// cells; a nitro grain may detonate into a ring of shockwave fragments.
fn step_granular(id: GranularType, settled_45: bool, settled_90: bool, grid: &mut Grid, pos: Pos, rng: &mut StdRng)
    requires
        old(grid).wf(),
        old(grid).in_range_spec(pos),
    ensures
        final(grid).step_ok(*old(grid), pos),
        !(old(grid).cell_at(pos) is Empty) ==> final(grid).fills_marked(*old(grid)),
        grain_outcome(id, *old(grid), pos, *final(grid)),
{
    let ghost start = *grid;
    let typ = granular_info(id);
    if id == GranularType::Nitro && grid.in_range(pos.plus(Pos { x: -1, y: 1 })) && grid.in_range(
        pos.plus(Pos { x: 1, y: -1 }),
    ) {
        if chance(rng, 100_000) {
            let mut x: i32 = -1;
            while x <= 1
                invariant
                    start.wf(),
                    start.in_range_spec(pos),
                    grid.step_ok(start, pos),
                    grid.fills_marked(start),
                    -1 <= x <= 2,
                    forall|d: Pos|
                        -1 <= d.x < x && -1 <= d.y <= 1 && !(d.x == 0 && d.y == 0) ==> #[trigger] grid.cell_at(
                            shifted(pos, d),
                        ) == CellType::ExplodingNitro(d) && grid.updated_at(shifted(pos, d)),
                    1 <= pos.x && pos.x + 1 < start.dims().x,
                    1 <= pos.y && pos.y + 1 < start.dims().y,
                decreases 2 - x,
            {
                let mut y: i32 = -1;
                while y <= 1
                    invariant
                        start.wf(),
                        start.in_range_spec(pos),
                        grid.step_ok(start, pos),
                        grid.fills_marked(start),
                        -1 <= x <= 1,
                        -1 <= y <= 2,
                        forall|d: Pos|
                            -1 <= d.x <= 1 && -1 <= d.y <= 1 && !(d.x == 0 && d.y == 0) && (d.x < x || (d.x == x
                                && d.y < y)) ==> #[trigger] grid.cell_at(shifted(pos, d)) == CellType::ExplodingNitro(d)
                                && grid.updated_at(shifted(pos, d)),
                        1 <= pos.x && pos.x + 1 < start.dims().x,
                        1 <= pos.y && pos.y + 1 < start.dims().y,
                    decreases 2 - y,
                {
                    if x != 0 || y != 0 {
                        let d = Pos { x, y };
                        spawn(grid, Ghost(start), pos, pos.plus(d), CellType::ExplodingNitro(d));
                        proof {
                            assert forall|e: Pos|
                                -1 <= e.x <= 1 && -1 <= e.y <= 1 && !(e.x == 0 && e.y == 0) && (e.x < x || (e.x
                                    == x && e.y < y)) implies #[trigger] grid.cell_at(shifted(pos, e))
                                == CellType::ExplodingNitro(e) && grid.updated_at(shifted(pos, e)) by {
                                assert(shifted(pos, e) != shifted(pos, d));
                            }
                        }
                    }
                    y += 1;
                }
                x += 1;
            }
            let ghost ring = *grid;
            put(grid, Ghost(start), pos, pos, CellType::Empty);
            proof {
                assert forall|d: Pos| -1 <= d.x <= 1 && -1 <= d.y <= 1 && !(d.x == 0 && d.y == 0) implies #[trigger] grid.cell_at(
                    shifted(pos, d),
                ) == CellType::ExplodingNitro(d) && grid.updated_at(shifted(pos, d)) by {
                    assert(ring.cell_at(shifted(pos, d)) == CellType::ExplodingNitro(d));
                    assert(shifted(pos, d) != pos);
                }
                assert(nitro_burst(start, pos, *grid));
            }
            return;
        }
    }
    let d_left = Pos { x: -1, y: 1 };
    let d_right = Pos { x: 1, y: 1 };
    let can_down = free(grid, pos, down());
    let can_d_left = free(grid, pos, d_left);
    let can_d_right = free(grid, pos, d_right);
    let can_left = free(grid, pos, left());
    let can_right = free(grid, pos, right());
    let mut go = can_down;
    if !go && (can_d_left || can_d_right) && !settled_90 {
        go = chance(rng, typ.spread_speed);
    }
    if !go && (can_left || can_right) && !settled_45 {
        go = chance(rng, 200_000);
    }
    if go {
        let d = if can_down && (chance(rng, PROB_ONE - typ.horizontal_spread) || (!can_d_left
            && !can_d_right)) {
            down()
        } else if can_d_left && !can_d_right {
            d_left
        } else if can_d_right && !can_d_left {
            d_right
        } else if can_d_left && can_d_right {
            if chance(rng, 500_000) {
                d_left
            } else {
                d_right
            }
        } else if can_left && !can_right {
            left()
        } else if can_right && !can_left {
            right()
        } else if chance(rng, 500_000) {
            left()
        } else {
            right()
        };
        assert(grain_dir(d) && empty_at(start, pos, d));
        let q = pos.plus(d);
        put(grid, Ghost(start), pos, pos, CellType::Empty);
        let s45 = chance(rng, typ.granularity_45);
        let s90 = chance(rng, typ.granularity_90);
        place_moving(grid, Ghost(start), pos, q, CellType::Granular(id, s45, s90), typ.fall_speed, rng);
        proof {
            assert(grain_moved(start, *grid, pos, q, id));
            assert(q == shifted(pos, d));
            if can_down {
                assert(d.y == 1);
            }
            if can_down && !can_d_left && !can_d_right {
                assert(d == down_dir());
            }
        }
    }
}

/// The updating cell still holds something, unless it started out empty.
pub open spec fn pos_kept(g: Grid, start: Grid, pos: Pos) -> bool {
    (start.cell_at(pos) is Empty) || !(g.cell_at(pos) is Empty)
}

/// What holds between the fluid rule's phases, with `amount` the mass still
/// held by the updating cell.
pub open spec fn fluid_phase(g: Grid, start: Grid, pos: Pos, amount: u64) -> bool {
    &&& start.wf()
    &&& start.in_range_spec(pos)
    &&& progress_ok(g, start, pos)
    &&& amount <= MAX_MASS
    &&& amount > 0 ==> pos_kept(g, start, pos)
}

/// The updating cell holds exactly `amount` of fluid `id` (or, once that has
/// run out, no mass of it).
pub open spec fn holds_amount(g: Grid, pos: Pos, id: FluidType, amount: u64) -> bool {
    &&& amount > 0 ==> g.cell_at(pos) == CellType::Fluid(id, amount)
    &&& mass_of(g, pos, id) == amount
}

/// Every fluid kind has the same mass in the block around `pos` in both grids.
pub open spec fn block_masses_kept(new: Grid, old: Grid, pos: Pos) -> bool {
    forall|k: FluidType| #[trigger] block_mass(new, pos, k) == block_mass(old, pos, k)
}

/// The mass that settles in the lower of two cells holding `total` between
/// them, when the lower one held `below`: the column's stable split, but at
/// most one more cell than before and never more than a cell can hold.
pub open spec fn bottom_share(total: int, comp: int, below: int) -> int {
    let s = stable_state_spec(total, comp);
    let s1 = if s > below + MASS_UNIT { below + MASS_UNIT } else { s };
    if s1 > MAX_MASS { MAX_MASS as int } else { s1 }
}

/// The effect of pushing `amount` of fluid `id` from `pos` towards the offset
/// `d`, with `sink` the drawn outcome of sinking through a lighter fluid;
/// `r` is what stays at `pos`.
pub open spec fn fall_result(old: Grid, pos: Pos, id: FluidType, amount: u64, d: Pos, sink: bool, new: Grid, r: u64) -> bool {
    let q = shifted(pos, d);
    if !old.in_range_spec(q) {
        new.same_as(old) && r == amount
    } else {
        match old.cell_at(q) {
            CellType::Fluid(id2, a2) => if id2 == id {
                let total = amount + a2;
                let b = bottom_share(total, fluid_spec(id).compressibility as int, a2 as int);
                new.is_set_two(old, pos, CellType::Fluid(id, (total - b) as u64), q, CellType::Fluid(id, b as u64), false)
                    && r == total - b
            } else if sink && fluid_spec(id2).density < fluid_spec(id).density {
                new.is_set_two(old, pos, CellType::Fluid(id2, a2), q, CellType::Fluid(id, amount), false) && r == 0
            } else {
                new.same_as(old) && r == amount
            },
            CellType::Empty => new.is_set_two(old, pos, CellType::Empty, q, CellType::Fluid(id, amount), true) && r == 0,
            _ => new.same_as(old) && r == amount,
        }
    }
}

/// The effect of pouring three quarters of `amount` into the empty cell on
/// the side `side`, keeping a quarter at `pos`.
pub open spec fn pour_result(old: Grid, pos: Pos, id: FluidType, amount: u64, side: Pos, new: Grid, r: u64) -> bool {
    &&& new.is_set_two(
        old,
        pos,
        CellType::Fluid(id, amount / 4),
        shifted(pos, side),
        CellType::Fluid(id, (amount - amount / 4) as u64),
        true,
    )
    &&& r == amount / 4
}

/// The effect of levelling `amount` at `pos` with the same fluid on the side
/// `d`: half the difference flows over when `pos` holds more.
pub open spec fn level_result(old: Grid, pos: Pos, id: FluidType, amount: u64, d: Pos, new: Grid, r: u64) -> bool {
    let q = shifted(pos, d);
    if amount > 0 && old.in_range_spec(q) && old.cell_at(q) is Fluid && old.cell_at(q)->Fluid_0 == id {
        let a2 = old.cell_at(q)->Fluid_1;
        let flow = if amount > a2 { (amount - a2) / 2 } else { 0 };
        new.is_set_two(
            old,
            pos,
            CellType::Fluid(id, (amount - flow) as u64),
            q,
            CellType::Fluid(id, (a2 + flow) as u64),
            false,
        ) && r == amount - flow
    } else {
        new.same_as(old) && r == amount
    }
}

/// The effect of settling `amount` at `pos` with the cell on the fluid's own
/// "up" side: as a two-cell column of the same fluid, or into an empty cell
/// when more than a dry residue would go up.
pub open spec fn rise_result(old: Grid, pos: Pos, id: FluidType, amount: u64, new: Grid) -> bool {
    let f = fluid_spec(id);
    let q = shifted(pos, f.up_dir);
    if amount > 0 && old.in_range_spec(q) {
        match old.cell_at(q) {
            CellType::Fluid(id2, a2) => if id2 == id {
                let total = amount + a2;
                let s = stable_state_spec(total, f.compressibility as int);
                let b = if s > MAX_MASS { MAX_MASS as int } else { s };
                new.is_set_two(old, pos, CellType::Fluid(id, b as u64), q, CellType::Fluid(id, (total - b) as u64), false)
            } else {
                new.same_as(old)
            },
            CellType::Empty => {
                let b = stable_state_spec(amount as int, f.compressibility as int);
                if amount - b > MIN_FLUID {
                    new.is_set_two(old, pos, CellType::Fluid(id, b as u64), q, CellType::Fluid(id, (amount - b) as u64), true)
                } else {
                    new.same_as(old)
                }
            },
            _ => new.same_as(old),
        }
    } else {
        new.same_as(old)
    }
}

/// The probability, in millionths, that a fluid of density `d1` sinks
/// through one of the lower density `d2`: the density ratio, at most 2, less 1.
fn sink_chance(d1: u32, d2: u32) -> (p: u32)
    requires
        0 < d2 < d1,
        d1 <= 2 * PROB_ONE,
    ensures
        p as int == (if d1 * PROB_ONE / d2 as int > 2 * PROB_ONE { 2 * PROB_ONE as int } else { d1 * PROB_ONE / d2 as int }) - PROB_ONE,
{
    assert(d1 * PROB_ONE <= 2_000_000 * 1_000_000) by (nonlinear_arith)
        requires d1 <= 2_000_000;
    let scaled: u64 = d1 as u64 * PROB_ONE as u64;
    let ratio: u64 = scaled / d2 as u64;
    let ghost a = d1 as int;
    let ghost b = d2 as int;
    assert(ratio >= PROB_ONE) by (nonlinear_arith)
        requires ratio == (a * 1_000_000) / b, b < a, b > 0;
    let capped: u64 = if ratio < 2 * PROB_ONE as u64 { ratio } else { 2 * PROB_ONE as u64 };
    (capped - PROB_ONE as u64) as u32
}

/// Phase one: push the mass towards the fluid's own "down" (straight, or
/// diagonally with the fluid's horizontal spread), merging with the same
/// fluid, sinking through a lighter one, or falling into an empty cell.
fn fall_phase(
    grid: &mut Grid,
    Ghost(start): Ghost<Grid>,
    Ghost(exact): Ghost<bool>,
    pos: Pos,
    id: FluidType,
    fl: Fluid,
    amount: u64,
    mydown: Pos,
    sink: bool,
    rng: &mut StdRng,
) -> (r: u64)
    requires
        fluid_phase(*old(grid), start, pos, amount),
        pos_kept(*old(grid), start, pos),
        fl == fluid_spec(id),
        exact ==> old(grid).cell_at(pos) == CellType::Fluid(id, amount),
        mydown.y == fl.down_dir.y,
        -1 <= mydown.x <= 1,
    ensures
        fall_result(*old(grid), pos, id, amount, mydown, sink, *final(grid), r),
        fluid_phase(*final(grid), start, pos, r),
        exact ==> holds_amount(*final(grid), pos, id, r) && block_masses_kept(*final(grid), *old(grid), pos),
        forall|p: Pos|
            final(grid).in_range_spec(p) && p.y == pos.y && p != pos ==> #[trigger] final(grid).cell_at(p)
                == old(grid).cell_at(p),
{
    proof {
        lemma_fluid_records_ok(id);
    }
    let q = pos.plus(mydown);
    if !grid.in_range(q) {
        return amount;
    }
    match grid.get(q).typ {
        CellType::Fluid(id2, amount2) => {
            if id2 == id {
                let total = amount + amount2;
                let mut bottom = stable_state(total, fl.compressibility);
                proof {
                    lemma_stable_state_le(total as int, fl.compressibility as int);
                    lemma_stable_state_rest(total as int, fl.compressibility as int);
                }
                // the lower cell gains at most one full cell, and never holds
                // more than a cell can; the rest stays above
                if bottom > amount2 + MASS_UNIT {
                    bottom = amount2 + MASS_UNIT;
                }
                if bottom > MAX_MASS {
                    bottom = MAX_MASS;
                }
                let top = total - bottom;
                put(grid, Ghost(start), pos, q, CellType::Fluid(id, bottom));
                put(grid, Ghost(start), pos, pos, CellType::Fluid(id, top));
                top
            } else {
                let other = fluid_info(id2);
                if other.density < fl.density && sink {
                    put(grid, Ghost(start), pos, pos, CellType::Fluid(id2, amount2));
                    put(grid, Ghost(start), pos, q, CellType::Fluid(id, amount));
                    return 0;
                }
                amount
            }
        },
        CellType::Empty => {
            put(grid, Ghost(start), pos, pos, CellType::Empty);
            place_moving(grid, Ghost(start), pos, q, CellType::Fluid(id, amount), fl.fall_speed, rng);
            0
        },
        _ => amount,
    }
}

/// Phase two: pour three quarters of the mass into the empty cell on the
/// side `side` and keep a quarter.
fn pour_phase(
    grid: &mut Grid,
    Ghost(start): Ghost<Grid>,
    Ghost(exact): Ghost<bool>,
    pos: Pos,
    id: FluidType,
    fl: Fluid,
    amount: u64,
    side: Pos,
    rng: &mut StdRng,
) -> (r: u64)
    requires
        fluid_phase(*old(grid), start, pos, amount),
        fl == fluid_spec(id),
        amount > 0,
        side == left_dir() || side == right_dir(),
        old(grid).in_range_spec(shifted(pos, side)),
        exact ==> holds_amount(*old(grid), pos, id, amount),
        exact ==> old(grid).cell_at(shifted(pos, side)) is Empty,
    ensures
        fluid_phase(*final(grid), start, pos, r),
        exact ==> holds_amount(*final(grid), pos, id, r) && block_masses_kept(*final(grid), *old(grid), pos),
        pour_result(*old(grid), pos, id, amount, side, *final(grid), r),
{
    proof {
        lemma_fluid_records_ok(id);
    }
    let keep = amount / 4;
    put(grid, Ghost(start), pos, pos, CellType::Fluid(id, keep));
    place_moving(grid, Ghost(start), pos, pos.plus(side), CellType::Fluid(id, amount - keep), fl.fall_speed, rng);
    keep
}

/// Phase three: level out with a neighbour of the same fluid on the side `d`,
/// giving it half the difference when this cell holds more.
fn level_phase(
    grid: &mut Grid,
    Ghost(start): Ghost<Grid>,
    Ghost(exact): Ghost<bool>,
    pos: Pos,
    id: FluidType,
    amount: u64,
    d: Pos,
) -> (r: u64)
    requires
        fluid_phase(*old(grid), start, pos, amount),
        d == left_dir() || d == right_dir(),
        exact ==> holds_amount(*old(grid), pos, id, amount),
    ensures
        fluid_phase(*final(grid), start, pos, r),
        exact ==> holds_amount(*final(grid), pos, id, r) && block_masses_kept(*final(grid), *old(grid), pos),
        level_result(*old(grid), pos, id, amount, d, *final(grid), r),
{
    let q = pos.plus(d);
    if amount > 0 && grid.in_range(q) {
        if let CellType::Fluid(id2, amount2) = grid.get(q).typ {
            if id2 == id {
                let flow = if amount > amount2 { (amount - amount2) / 2 } else { 0 };
                put(grid, Ghost(start), pos, pos, CellType::Fluid(id, amount - flow));
                put(grid, Ghost(start), pos, q, CellType::Fluid(id, amount2 + flow));
                return amount - flow;
            }
        }
    }
    amount
}

/// Phase four: share mass with the cell on the fluid's own "up" side, as a
/// two-cell column settles; into an empty cell only when the excess is more
/// than a dry residue.
fn rise_phase(
    grid: &mut Grid,
    Ghost(start): Ghost<Grid>,
    Ghost(exact): Ghost<bool>,
    pos: Pos,
    id: FluidType,
    fl: Fluid,
    amount: u64,
    rng: &mut StdRng,
)
    requires
        fluid_phase(*old(grid), start, pos, amount),
        fl == fluid_spec(id),
        exact ==> holds_amount(*old(grid), pos, id, amount),
    ensures
        progress_ok(*final(grid), start, pos),
        exact ==> block_masses_kept(*final(grid), *old(grid), pos),
        rise_result(*old(grid), pos, id, amount, *final(grid)),
{
    proof {
        lemma_fluid_records_ok(id);
    }
    let q = pos.plus(fl.up_dir);
    if amount > 0 && grid.in_range(q) {
        match grid.get(q).typ {
            CellType::Fluid(id2, amount2) => {
                if id2 == id {
                    let total = amount + amount2;
                    let mut bottom = stable_state(total, fl.compressibility);
                    proof {
                        lemma_stable_state_le(total as int, fl.compressibility as int);
                        lemma_stable_state_rest(total as int, fl.compressibility as int);
                    }
                    if bottom > MAX_MASS {
                        bottom = MAX_MASS;
                    }
                    put(grid, Ghost(start), pos, pos, CellType::Fluid(id, bottom));
                    put(grid, Ghost(start), pos, q, CellType::Fluid(id, total - bottom));
                }
            },
            CellType::Empty => {
                let bottom = stable_state(amount, fl.compressibility);
                proof {
                    lemma_stable_state_le(amount as int, fl.compressibility as int);
                }
                if amount - bottom > MIN_FLUID {
                    put(grid, Ghost(start), pos, pos, CellType::Fluid(id, bottom));
                    place_moving(grid, Ghost(start), pos, q, CellType::Fluid(id, amount - bottom), fl.fall_speed, rng);
                }
            },
            _ => {},
        }
    }
}

/// The fluid's own "down" cell and both cells diagonally beside it are on
/// the grid and empty.
pub open spec fn fluid_can_fall(g: Grid, pos: Pos, id: FluidType) -> bool {
    let dy = fluid_spec(id).down_dir.y;
    empty_at(g, pos, Pos { x: -1i32, y: dy }) && empty_at(g, pos, Pos { x: 0, y: dy }) && empty_at(
        g,
        pos,
        Pos { x: 1, y: dy },
    )
}

/// The fluid left `pos`, and all of its `amount` is in one of the three cells
/// on its "down" side.
pub open spec fn fell(old: Grid, pos: Pos, id: FluidType, amount: u64, new: Grid) -> bool {
    &&& new.cell_at(pos) is Empty
    &&& exists|d: Pos|
        d.y == fluid_spec(id).down_dir.y && -1 <= d.x <= 1 && #[trigger] new.cell_at(shifted(pos, d))
            == CellType::Fluid(id, amount)
}

/// The fluids: cement may set into wall, steam may melt ice, and then the
/// mass moves through the four phases.
fn step_fluid(id: FluidType, amount: u64, grid: &mut Grid, pos: Pos, rng: &mut StdRng)
    requires
        old(grid).wf(),
        old(grid).in_range_spec(pos),
        amount <= MAX_MASS,
    ensures
        final(grid).step_ok(*old(grid), pos),
        progress_ok(*final(grid), *old(grid), pos),
        old(grid).cell_at(pos) == CellType::Fluid(id, amount) && fluid_can_fall(*old(grid), pos, id) ==> fell(
            *old(grid),
            pos,
            id,
            amount,
            *final(grid),
        ),
        old(grid).cell_at(pos) == CellType::Fluid(id, amount) && id != FluidType::Steam ==> (id == FluidType::Cement
            && final(grid).is_set(*old(grid), pos, CellType::Solid(SolidType::Wall))) || block_masses_kept(
            *final(grid),
            *old(grid),
            pos,
        ),
{
    let ghost start = *grid;
    let ghost amount0 = amount;
    let ghost exact = start.cell_at(pos) == CellType::Fluid(id, amount) && id != FluidType::Steam;
    if id == FluidType::Cement {
        let below = pos.plus(down());
        if grid.in_range(below) {
            let allow = match grid.get(below).typ {
                CellType::Fluid(..) => false,
                CellType::Empty => false,
                _ => true,
            };
            if chance(rng, 50_000) && allow {
                put(grid, Ghost(start), pos, pos, CellType::Solid(SolidType::Wall));
                return;
            }
        }
    }
    if id == FluidType::Steam {
        let nb = pos.plus(random_cardinal(rng));
        if grid.in_range(nb) {
            if grid.get(nb).typ == CellType::Solid(SolidType::Ice) {
                if chance(rng, 20_000) {
                    put(grid, Ghost(start), pos, nb, CellType::Fluid(FluidType::Water, MASS_UNIT));
                    put(grid, Ghost(start), pos, pos, CellType::Fluid(FluidType::Water, amount));
                }
            }
        }
    }
    let fl = fluid_info(id);
    proof {
        lemma_fluid_records_ok(id);
    }
    let can_left = free(grid, pos, left());
    let can_right = free(grid, pos, right());
    let down = fl.down_dir;
    let mydown = if chance(rng, PROB_ONE - fl.horizontal_spread) {
        down
    } else if chance(rng, 500_000) {
        Pos { x: -1, y: down.y }
    } else {
        Pos { x: 1, y: down.y }
    };
    let q = pos.plus(mydown);
    let mut sink = false;
    if grid.in_range(q) {
        if let CellType::Fluid(id2, _) = grid.get(q).typ {
            if id2 != id {
                let other = fluid_info(id2);
                proof {
                    lemma_fluid_records_ok(id2);
                }
                if other.density < fl.density {
                    sink = chance(rng, sink_chance(fl.density, other.density));
                }
            }
        }
    }
    let ghost g0 = *grid;
    let mut amount = fall_phase(grid, Ghost(start), Ghost(exact), pos, id, fl, amount, mydown, sink, rng);
    let ghost g1 = *grid;
    if amount > 0 && (can_left || can_right) && chance(rng, PROB_ONE) {
        let side = if can_left && !can_right {
            left()
        } else if can_right && !can_left {
            right()
        } else if chance(rng, 500_000) {
            left()
        } else {
            right()
        };
        amount = pour_phase(grid, Ghost(start), Ghost(exact), pos, id, fl, amount, side, rng);
    }
    let ghost g2 = *grid;
    let (dir1, dir2) = if chance(rng, 500_000) { (left(), right()) } else { (right(), left()) };
    let amount = level_phase(grid, Ghost(start), Ghost(exact), pos, id, amount, dir1);
    let ghost g3 = *grid;
    let amount = level_phase(grid, Ghost(start), Ghost(exact), pos, id, amount, dir2);
    let ghost g4 = *grid;
    rise_phase(grid, Ghost(start), Ghost(exact), pos, id, fl, amount, rng);
    proof {
        if start.cell_at(pos) == CellType::Fluid(id, amount0) && fluid_can_fall(start, pos, id) {
            assert(empty_at(start, pos, mydown));
            assert(g0.cell_at(shifted(pos, mydown)) is Empty);
            assert(g1.cell_at(pos) is Empty);
            assert(g1.cell_at(shifted(pos, mydown)) == CellType::Fluid(id, amount0));
            assert(grid.cell_at(shifted(pos, mydown)) == CellType::Fluid(id, amount0));
            assert(fell(start, pos, id, amount0, *grid));
        }
    }
    proof {
        if exact {
            assert(g0 == start);
            assert forall|k: FluidType| #[trigger] block_mass(*grid, pos, k) == block_mass(start, pos, k) by {
                assert(block_mass(g1, pos, k) == block_mass(g0, pos, k));
                assert(block_mass(g2, pos, k) == block_mass(g1, pos, k));
                assert(block_mass(g3, pos, k) == block_mass(g2, pos, k));
                assert(block_mass(g4, pos, k) == block_mass(g3, pos, k));
            }
        }
    }
}


/// Phase one of the fluid rule on its own: pushes the cell's fluid towards
/// `mydown`, one of the three cells on its "down" side; `sink` is the drawn
/// outcome of sinking through a lighter fluid there.
pub fn fluid_fall(grid: &mut Grid, pos: Pos, id: FluidType, amount: u64, mydown: Pos, sink: bool, rng: &mut StdRng) -> (r: u64)
    requires
        old(grid).wf(),
        old(grid).in_range_spec(pos),
        old(grid).cell_at(pos) == CellType::Fluid(id, amount),
        mydown.y == fluid_spec(id).down_dir.y,
        -1 <= mydown.x <= 1,
    ensures
        final(grid).step_ok(*old(grid), pos),
        fall_result(*old(grid), pos, id, amount, mydown, sink, *final(grid), r),
{
    let ghost start = *grid;
    assert(start.cell_at(pos).valid());
    let fl = fluid_info(id);
    fall_phase(grid, Ghost(start), Ghost(true), pos, id, fl, amount, mydown, sink, rng)
}

/// Phase two of the fluid rule on its own: pours three quarters of the
/// cell's fluid into the empty cell on the side `side`.
pub fn fluid_spread(grid: &mut Grid, pos: Pos, id: FluidType, amount: u64, side: Pos, rng: &mut StdRng) -> (r: u64)
    requires
        old(grid).wf(),
        old(grid).in_range_spec(pos),
        old(grid).cell_at(pos) == CellType::Fluid(id, amount),
        amount > 0,
        side == left_dir() || side == right_dir(),
        empty_at(*old(grid), pos, side),
    ensures
        final(grid).step_ok(*old(grid), pos),
        pour_result(*old(grid), pos, id, amount, side, *final(grid), r),
{
    let ghost start = *grid;
    assert(start.cell_at(pos).valid());
    let fl = fluid_info(id);
    pour_phase(grid, Ghost(start), Ghost(true), pos, id, fl, amount, side, rng)
}

/// Phase three of the fluid rule on its own: levels the cell's fluid with
/// the same fluid on the side `d`.
pub fn fluid_level(grid: &mut Grid, pos: Pos, id: FluidType, amount: u64, d: Pos) -> (r: u64)
    requires
        old(grid).wf(),
        old(grid).in_range_spec(pos),
        old(grid).cell_at(pos) == CellType::Fluid(id, amount),
        d == left_dir() || d == right_dir(),
    ensures
        final(grid).step_ok(*old(grid), pos),
        level_result(*old(grid), pos, id, amount, d, *final(grid), r),
{
    let ghost start = *grid;
    assert(start.cell_at(pos).valid());
    level_phase(grid, Ghost(start), Ghost(true), pos, id, amount, d)
}

/// Phase four of the fluid rule on its own: settles the cell's fluid with
/// the cell on its "up" side.
pub fn fluid_rise(grid: &mut Grid, pos: Pos, id: FluidType, amount: u64, rng: &mut StdRng)
    requires
        old(grid).wf(),
        old(grid).in_range_spec(pos),
        old(grid).cell_at(pos) == CellType::Fluid(id, amount),
    ensures
        final(grid).step_ok(*old(grid), pos),
        rise_result(*old(grid), pos, id, amount, *final(grid)),
{
    let ghost start = *grid;
    assert(start.cell_at(pos).valid());
    let fl = fluid_info(id);
    rise_phase(grid, Ghost(start), Ghost(true), pos, id, fl, amount, rng)
}

/// What applying the rule of a cell of type `typ` at `pos` may do to the grid:
/// a legal local update; nothing at all for a cell already updated in this
/// tick; otherwise the exact outcome of the rules that draw no random number
/// and what holds of every outcome of the others. Every cell that is filled
/// (moved or spawned into) is marked; grains fall as `grain_outcome` says;
/// fluids fall when they can, and keep the mass of every kind in the block
/// unless cement sets or steam melts ice.
pub open spec fn rule_outcome(typ: CellType, old: Grid, pos: Pos, new: Grid) -> bool {
    &&& new.step_ok(old, pos)
    &&& old.updated_at(pos) ==> new.same_as(old)
    &&& !old.updated_at(pos) ==> deterministic_outcome(typ, old, pos, new)
    &&& !old.updated_at(pos) ==> reactive_outcome(typ, old, pos, new)
    &&& old.cell_at(pos) == typ ==> new.fills_marked(old)
    &&& !old.updated_at(pos) && old.cell_at(pos) == typ ==> match typ {
        CellType::Fluid(id, m) => (fluid_can_fall(old, pos, id) ==> fell(old, pos, id, m, new)) && (id
            != FluidType::Steam ==> (id == FluidType::Cement && new.is_set(
            old,
            pos,
            CellType::Solid(SolidType::Wall),
        )) || block_masses_kept(new, old, pos)),
        _ => true,
    }
    &&& !old.updated_at(pos) ==> match typ {
        CellType::Granular(id, _, _) => grain_outcome(id, old, pos, new),
        _ => true,
    }
}

impl Cell {
    /// Applies this cell's rule at `pos`, once per tick: a cell already marked
    /// updated in this tick is left alone.
    pub fn simulate(self, grid: &mut Grid, pos: Pos, rng: &mut StdRng)
        requires
            old(grid).wf(),
            old(grid).in_range_spec(pos),
            self.typ.valid(),
        ensures
            rule_outcome(self.typ, *old(grid), pos, *final(grid)),
            old(grid).updated_at(pos) ==> *final(rng) == *old(rng),
    {
        if grid.updated(pos) {
            return;
        }
        match self.typ {
            CellType::Granular(id, settled_45, settled_90) => step_granular(id, settled_45, settled_90, grid, pos, rng),
            CellType::Fluid(id, amount) => step_fluid(id, amount, grid, pos, rng),
            CellType::WaterGenerator | CellType::SandGenerator | CellType::Torch | CellType::Destroyer => step_emitter(
                self.typ,
                grid,
                pos,
            ),
            CellType::ExplodingNitro(_) | CellType::Plant | CellType::Eater | CellType::Virus(_)
            | CellType::Fire => step_reactive(self.typ, grid, pos, rng),
            CellType::Empty | CellType::LifeOn | CellType::LifeTurningOn | CellType::Wire(_)
            | CellType::ElectronHead(_) | CellType::ElectronTail(..) | CellType::Fuse(_) => step_automaton(
                self.typ,
                grid,
                pos,
            ),
            CellType::Solid(_) => {},
        }
    }
}

} // verus!
