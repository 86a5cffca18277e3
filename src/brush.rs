//! Brush shapes and continuous painting along a line of brush stamps.
use vstd::prelude::*;
use rand::rngs::StdRng;
use crate::geometry::{abs, king_step, line, max, near_segment, Pos};
use crate::material::CellType;
use crate::random::chance;
use crate::world::World;

verus! {

#[derive(Clone, Copy, Debug, PartialEq, Eq, Structural)]
pub enum Brush {
    Circle,
    Square,
    Diamond,
    /// A sparse scatter inside the circle.
    Random,
}

/// The scan bound of a brush of the given diameter: half of it, rounded
/// towards zero, plus one.
pub open spec fn half_span(d: i32) -> int {
    if d >= 0 {
        d / 2 + 1
    } else {
        -((-d) / 2) + 1
    }
}

/// `p` lies in the square scanned around `center`.
pub open spec fn in_window(d: i32, center: Pos, p: Pos) -> bool {
    let r = half_span(d);
    -r <= p.x - center.x <= r && -r <= p.y - center.y <= r
}

/// The shape's membership test on the offset `(dx, dy)` from the centre, with
/// radius `d / 2`.
pub open spec fn shape_holds(shape: Brush, d: int, dx: int, dy: int) -> bool {
    match shape {
        Brush::Circle | Brush::Random => 4 * (dx * dx + dy * dy) <= d * d,
        Brush::Square => 2 * abs(dx) <= d && 2 * abs(dy) <= d,
        Brush::Diamond => 2 * (abs(dx) + abs(dy)) <= d,
    }
}

/// The brush stamped at `center` covers `p`.
pub open spec fn covers(shape: Brush, d: i32, center: Pos, p: Pos) -> bool {
    in_window(d, center, p) && shape_holds(shape, d as int, p.x - center.x, p.y - center.y)
}

/// `a` comes before `b` in row-major order: by row, then by column.
pub open spec fn scans_before(a: Pos, b: Pos) -> bool {
    a.y < b.y || (a.y == b.y && a.x < b.x)
}

/// Room around `center` for the brush's scan.
pub open spec fn scan_fits(d: i32, center: Pos) -> bool {
    let r = half_span(d);
    i32::MIN + r <= center.x <= i32::MAX - r && i32::MIN + r <= center.y <= i32::MAX - r
}

/// Some stamp among the first `n` covers `p`.
pub open spec fn stamped(shape: Brush, d: i32, stamps: Seq<Pos>, n: int, p: Pos) -> bool {
    exists|j: int| 0 <= j < n && covers(shape, d, #[trigger] stamps[j], p)
}

/// Cells covered by the stamps took `typ` (for the scatter brush: some of
/// them); nothing else changed.
pub open spec fn painted(
    shape: Brush,
    d: i32,
    stamps: Seq<Pos>,
    n: int,
    typ: CellType,
    old: crate::grid::Grid,
    new: crate::grid::Grid,
) -> bool {
    &&& new.dims() == old.dims()
    &&& forall|p: Pos| new.in_range_spec(p) ==> #[trigger] new.updated_at(p) == old.updated_at(p)
    &&& forall|p: Pos|
        new.in_range_spec(p) ==> (#[trigger] new.cell_at(p) == old.cell_at(p) || (new.cell_at(p) == typ
            && stamped(shape, d, stamps, n, p)))
    &&& shape != Brush::Random ==> forall|p: Pos|
        new.in_range_spec(p) && stamped(shape, d, stamps, n, p) ==> #[trigger] new.cell_at(p) == typ
}

/// `s` is a stroke from `from` to `to`: it starts and ends there, steps
/// between touching cells and stays within half a cell of the segment.
pub open spec fn is_stroke(s: Seq<Pos>, from: Pos, to: Pos) -> bool {
    &&& s.len() == max(abs(to.x - from.x), abs(to.y - from.y)) + 1
    &&& s[0] == from
    &&& s.last() == to
    &&& forall|i: int| 0 <= i < s.len() - 1 ==> #[trigger] king_step(s[i], s[i + 1])
    &&& forall|i: int| 0 <= i < s.len() ==> #[trigger] near_segment(from, to, s[i])
}

proof fn lemma_circle_in_window(d: i32, dx: int, dy: int)
    requires
        d >= 0,
        4 * (dx * dx + dy * dy) <= d * d,
    ensures
        2 * abs(dx) <= d,
        2 * abs(dy) <= d,
{
    assert(2 * abs(dx) <= d) by (nonlinear_arith)
        requires d >= 0, 4 * (dx * dx + dy * dy) <= d * d, abs(dx) == (if dx < 0 { -dx } else { dx });
    assert(2 * abs(dy) <= d) by (nonlinear_arith)
        requires d >= 0, 4 * (dx * dx + dy * dy) <= d * d, abs(dy) == (if dy < 0 { -dy } else { dy });
}

impl Brush {
    /// The grid points the brush covers when stamped at `center`; the scatter
    /// brush keeps each point of its circle with probability 1/100.
    pub fn get_points(self, diameter: i32, center: Pos, rng: &mut StdRng) -> (r: Vec<Pos>)
        requires
            scan_fits(diameter, center),
        ensures
            r@.no_duplicates(),
            forall|i: int, j: int| 0 <= i < j < r@.len() ==> scans_before(#[trigger] r@[i], #[trigger] r@[j]),
            self != Brush::Random ==> *final(rng) == *old(rng),
            forall|i: int| 0 <= i < r@.len() ==> covers(self, diameter, center, #[trigger] r@[i]),
            self != Brush::Random ==> forall|p: Pos| covers(self, diameter, center, p) ==> #[trigger] r@.contains(p),
            self != Brush::Random && diameter >= 0 ==> forall|p: Pos|
                #[trigger] r@.contains(p) <==> shape_holds(self, diameter as int, p.x - center.x, p.y - center.y),
            diameter >= 0 ==> forall|p: Pos|
                #[trigger] shape_holds(self, diameter as int, p.x - center.x, p.y - center.y) ==> in_window(
                    diameter,
                    center,
                    p,
                ),
    {
        let d: i64 = diameter as i64;
        let half: i64 = if d >= 0 { d / 2 } else { -((-d) / 2) };
        let radius2: i64 = half + 1;
        let mut points: Vec<Pos> = Vec::new();
        let mut y: i64 = -radius2;
        while y <= radius2
            invariant
                radius2 == half_span(diameter),
                d == diameter,
                scan_fits(diameter, center),
                -radius2 <= y <= radius2 + 1 || radius2 < 0,
                y >= -radius2,
                points@.no_duplicates(),
                forall|i: int, j: int| 0 <= i < j < points@.len() ==> scans_before(#[trigger] points@[i], #[trigger] points@[j]),
                self != Brush::Random ==> *rng == *old(rng),
                forall|i: int| 0 <= i < points@.len() ==> covers(self, diameter, center, #[trigger] points@[i]),
                forall|i: int| 0 <= i < points@.len() ==> (#[trigger] points@[i]).y - center.y < y,
                self != Brush::Random ==> forall|p: Pos|
                    covers(self, diameter, center, p) && p.y - center.y < y ==> #[trigger] points@.contains(p),
            decreases radius2 + 1 - y,
        {
            let mut x: i64 = -radius2;
            while x <= radius2
                invariant
                    radius2 == half_span(diameter),
                    d == diameter,
                    scan_fits(diameter, center),
                    -radius2 <= y <= radius2,
                    -radius2 <= x <= radius2 + 1,
                    points@.no_duplicates(),
                    forall|i: int, j: int| 0 <= i < j < points@.len() ==> scans_before(#[trigger] points@[i], #[trigger] points@[j]),
                    self != Brush::Random ==> *rng == *old(rng),
                    forall|i: int| 0 <= i < points@.len() ==> covers(self, diameter, center, #[trigger] points@[i]),
                    forall|i: int|
                        0 <= i < points@.len() ==> (#[trigger] points@[i]).y - center.y < y || (points@[i].y
                            - center.y == y && points@[i].x - center.x < x),
                    self != Brush::Random ==> forall|p: Pos|
                        covers(self, diameter, center, p) && (p.y - center.y < y || (p.y - center.y == y && p.x
                            - center.x < x)) ==> #[trigger] points@.contains(p),
                decreases radius2 + 1 - x,
            {
                let ghost before = points@;
                let xx: i128 = x as i128;
                let yy: i128 = y as i128;
                let dd: i128 = d as i128;
                assert(-0x1_0000_0000 <= xx <= 0x1_0000_0000 && -0x1_0000_0000 <= yy <= 0x1_0000_0000);
                assert(0 <= xx * xx <= 0x1_0000_0000_0000_0000) by (nonlinear_arith)
                    requires -0x1_0000_0000 <= xx <= 0x1_0000_0000;
                assert(0 <= yy * yy <= 0x1_0000_0000_0000_0000) by (nonlinear_arith)
                    requires -0x1_0000_0000 <= yy <= 0x1_0000_0000;
                assert(0 <= dd * dd <= 0x1_0000_0000_0000_0000) by (nonlinear_arith)
                    requires -0x1_0000_0000 <= dd <= 0x1_0000_0000;
                let ax: i64 = if x < 0 { -x } else { x };
                let ay: i64 = if y < 0 { -y } else { y };
                let sq: i128 = xx * xx + yy * yy;
                let in_circle: bool = 4 * sq <= dd * dd;
                let inside = match self {
                    Brush::Circle => in_circle,
                    Brush::Square => 2 * ax <= d && 2 * ay <= d,
                    Brush::Diamond => 2 * (ax + ay) <= d,
                    Brush::Random => in_circle && chance(rng, 10_000),
                };
                if inside {
                    let p = Pos { x: (center.x as i64 + x) as i32, y: (center.y as i64 + y) as i32 };
                    assert(!points@.contains(p)) by {
                        if points@.contains(p) {
                            let i = choose|i: int| 0 <= i < points@.len() && points@[i] == p;
                            assert(points@[i].y - center.y < y || (points@[i].y - center.y == y && points@[i].x
                                - center.x < x));
                        }
                    }
                    points.push(p);
                }
                proof {
                    if self != Brush::Random {
                        assert forall|p: Pos|
                            covers(self, diameter, center, p) && (p.y - center.y < y || (p.y - center.y == y
                                && p.x - center.x < x + 1)) implies #[trigger] points@.contains(p) by {
                            if p.y - center.y == y && p.x - center.x == x {
                                assert(inside);
                                assert(points@[points@.len() - 1] == p);
                            } else {
                                assert(before.contains(p));
                                let i = choose|i: int| 0 <= i < before.len() && before[i] == p;
                                assert(points@[i] == p);
                            }
                        }
                    }
                }
                x += 1;
            }
            y += 1;
        }
        proof {
            if diameter >= 0 {
                assert forall|p: Pos| #[trigger] shape_holds(self, diameter as int, p.x - center.x, p.y - center.y)
                    implies in_window(diameter, center, p) by {
                    if self == Brush::Circle || self == Brush::Random {
                        lemma_circle_in_window(diameter, p.x - center.x, p.y - center.y);
                    }
                }
                if self != Brush::Random {
                    assert forall|p: Pos| #[trigger] points@.contains(p) <==> shape_holds(self, diameter as int, p.x - center.x, p.y - center.y) by {
                        if points@.contains(p) {
                            let i = choose|i: int| 0 <= i < points@.len() && points@[i] == p;
                            assert(covers(self, diameter, center, points@[i]));
                        }
                        if shape_holds(self, diameter as int, p.x - center.x, p.y - center.y) {
                            assert(in_window(diameter, center, p));
                        }
                    }
                }
            }
        }
        points
    }

    /// Paints a stroke: stamps the brush at every cell of the line from
    /// `pos_1` to `pos_2` and sets each covered cell on the grid to `cell_type`.
    pub fn draw(
        self,
        brush_size: i32,
        pos_1: Pos,
        pos_2: Pos,
        cell_type: CellType,
        world: &mut World,
        rng: &mut StdRng,
    )
        requires
            old(world).wf(),
            cell_type.valid(),
            scan_fits(brush_size, pos_1),
            scan_fits(brush_size, pos_2),
        ensures
            final(world).wf(),
            final(world).order() == old(world).order(),
            exists|s: Seq<Pos>|
                is_stroke(s, pos_1, pos_2) && #[trigger] painted(
                    self,
                    brush_size,
                    s,
                    s.len() as int,
                    cell_type,
                    old(world).grid_spec(),
                    final(world).grid_spec(),
                ),
    {
        let ghost start = world.grid_spec();
        let stamps = line(pos_1, pos_2);
        let mut i: usize = 0;
        while i < stamps.len()
            invariant
                world.wf(),
                world.order() == old(world).order(),
                cell_type.valid(),
                scan_fits(brush_size, pos_1),
                scan_fits(brush_size, pos_2),
                is_stroke(stamps@, pos_1, pos_2),
                i <= stamps@.len(),
                painted(self, brush_size, stamps@, i as int, cell_type, start, world.grid_spec()),
            decreases stamps@.len() - i,
        {
            let center = stamps[i];
            proof {
                assert(near_segment(pos_1, pos_2, stamps@[i as int]));
            }
            let pts = self.get_points(brush_size, center, rng);
            let ghost mid = world.grid_spec();
            let mut k: usize = 0;
            while k < pts.len()
                invariant
                    world.wf(),
                    world.order() == old(world).order(),
                    cell_type.valid(),
                    i < stamps@.len(),
                    center == stamps@[i as int],
                    forall|j: int| 0 <= j < pts@.len() ==> covers(self, brush_size, center, #[trigger] pts@[j]),
                    k <= pts@.len(),
                    painted(self, brush_size, stamps@, i as int, cell_type, start, mid),
                    world.grid_spec().dims() == mid.dims(),
                    forall|p: Pos| world.grid_spec().in_range_spec(p) ==> #[trigger] world.grid_spec().updated_at(p)
                        == mid.updated_at(p),
                    forall|p: Pos|
                        world.grid_spec().in_range_spec(p) ==> (#[trigger] world.grid_spec().cell_at(p) == mid.cell_at(
                            p,
                        ) || (world.grid_spec().cell_at(p) == cell_type && covers(self, brush_size, center, p))),
                    forall|j: int|
                        0 <= j < k && world.grid_spec().in_range_spec(#[trigger] pts@[j]) ==> world.grid_spec().cell_at(
                            pts@[j],
                        ) == cell_type,
                decreases pts@.len() - k,
            {
                let point = pts[k];
                if world.in_range(point) {
                    world.set_cell(point, cell_type);
                }
                k += 1;
            }
            proof {
                let g = world.grid_spec();
                assert forall|p: Pos| g.in_range_spec(p) implies (#[trigger] g.cell_at(p) == start.cell_at(p) || (
                g.cell_at(p) == cell_type && stamped(self, brush_size, stamps@, i + 1, p))) by {
                    if g.cell_at(p) != mid.cell_at(p) {
                        assert(covers(self, brush_size, stamps@[i as int], p));
                    } else if mid.cell_at(p) != start.cell_at(p) {
                        let j = choose|j: int| 0 <= j < i && covers(self, brush_size, #[trigger] stamps@[j], p);
                        assert(covers(self, brush_size, stamps@[j], p));
                    }
                }
                if self != Brush::Random {
                    assert forall|p: Pos| g.in_range_spec(p) && stamped(self, brush_size, stamps@, i + 1, p)
                        implies #[trigger] g.cell_at(p) == cell_type by {
                        let j = choose|j: int| 0 <= j < i + 1 && covers(self, brush_size, #[trigger] stamps@[j], p);
                        if j == i {
                            assert(pts@.contains(p));
                            let m = choose|m: int| 0 <= m < pts@.len() && pts@[m] == p;
                            assert(g.in_range_spec(pts@[m]));
                        } else {
                            assert(stamped(self, brush_size, stamps@, i as int, p));
                            assert(mid.cell_at(p) == cell_type);
                        }
                    }
                }
                assert forall|p: Pos| g.in_range_spec(p) implies #[trigger] g.updated_at(p) == start.updated_at(p) by {
                    assert(mid.in_range_spec(p));
                }
            }
            i += 1;
        }
    }
}

} // verus!
