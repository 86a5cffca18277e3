//! Integer grid positions and Bresenham line rasterisation.
use vstd::prelude::*;

verus! {

/// A position (or offset) on the grid.
#[derive(Clone, Copy, Debug, PartialEq, Eq, Structural)]
pub struct Pos {
    pub x: i32,
    pub y: i32,
}

pub open spec fn abs(a: int) -> int {
    if a < 0 {
        -a
    } else {
        a
    }
}

pub open spec fn max(a: int, b: int) -> int {
    if a < b {
        b
    } else {
        a
    }
}

/// Grid directions: y grows downwards.
pub open spec fn up_dir() -> Pos {
    Pos { x: 0, y: -1i32 }
}

pub open spec fn down_dir() -> Pos {
    Pos { x: 0, y: 1 }
}

pub open spec fn left_dir() -> Pos {
    Pos { x: -1i32, y: 0 }
}

pub open spec fn right_dir() -> Pos {
    Pos { x: 1, y: 0 }
}

/// Two distinct positions that touch, sideways or diagonally.
pub open spec fn king_step(a: Pos, b: Pos) -> bool {
    a != b && abs(a.x - b.x) <= 1 && abs(a.y - b.y) <= 1
}

/// How far `v` has travelled from `s` in the direction of `e`.
pub open spec fn travelled(s: int, e: int, v: int) -> int {
    if s < e {
        v - s
    } else {
        s - v
    }
}

/// `p` lies between `start` and `end` on both axes, within half a cell of the
/// straight segment joining them (measured along the segment's minor axis).
pub open spec fn near_segment(start: Pos, end: Pos, p: Pos) -> bool {
    let dx = abs(end.x - start.x);
    let dy = abs(end.y - start.y);
    let kx = travelled(start.x as int, end.x as int, p.x as int);
    let ky = travelled(start.y as int, end.y as int, p.y as int);
    &&& 0 <= kx <= dx
    &&& 0 <= ky <= dy
    &&& abs(2 * (ky * dx - kx * dy)) <= max(dx, dy)
}

impl Pos {
    pub fn new(x: i32, y: i32) -> (r: Pos)
        ensures
            r.x == x,
            r.y == y,
    {
        Pos { x, y }
    }

    /// The position moved by the offset `d`.
    pub fn plus(self, d: Pos) -> (r: Pos)
        requires
            i32::MIN <= self.x + d.x <= i32::MAX,
            i32::MIN <= self.y + d.y <= i32::MAX,
        ensures
            r.x == self.x + d.x,
            r.y == self.y + d.y,
    {
        Pos { x: self.x + d.x, y: self.y + d.y }
    }
}

/// The cells of the line from `start` to `end`, as Bresenham's algorithm walks it.
pub fn line(start: Pos, end: Pos) -> (r: Vec<Pos>)
    ensures
        r@.len() == max(abs(end.x - start.x), abs(end.y - start.y)) + 1,
        r@[0] == start,
        r@.last() == end,
        forall|i: int| 0 <= i < r@.len() - 1 ==> #[trigger] king_step(r@[i], r@[i + 1]),
        forall|i: int| 0 <= i < r@.len() ==> #[trigger] near_segment(start, end, r@[i]),
{
    let mut x0: i64 = start.x as i64;
    let mut y0: i64 = start.y as i64;
    let x1: i64 = end.x as i64;
    let y1: i64 = end.y as i64;
    let dx: i64 = if x1 >= x0 { x1 - x0 } else { x0 - x1 };
    let dy: i64 = if y1 >= y0 { y1 - y0 } else { y0 - y1 };
    let sx: i64 = if x0 < x1 { 1 } else { -1 };
    let sy: i64 = if y0 < y1 { 1 } else { -1 };
    let mut err: i64 = dx - dy;
    let ghost m = max(dx as int, dy as int);
    let ghost mut kx: int = 0;
    let ghost mut ky: int = 0;
    let ghost mut d: int = 0;

    let mut points: Vec<Pos> = Vec::new();
    loop
        invariant
            dx == abs(end.x - start.x),
            dy == abs(end.y - start.y),
            x1 == end.x,
            y1 == end.y,
            sx == (if start.x < end.x { 1int } else { -1int }),
            sy == (if start.y < end.y { 1int } else { -1int }),
            m == max(dx as int, dy as int),
            kx == travelled(start.x as int, end.x as int, x0 as int),
            ky == travelled(start.y as int, end.y as int, y0 as int),
            0 <= kx <= dx,
            0 <= ky <= dy,
            d == ky * dx - kx * dy,
            err == dx - dy + d,
            abs(2 * d) <= m,
            dx == dy ==> d == 0,
            points@.len() == (if dx >= dy { kx } else { ky }),
            points@.len() == 0 ==> x0 == start.x && y0 == start.y,
            points@.len() > 0 ==> points@[0] == start,
            points@.len() > 0 ==> king_step(points@.last(), Pos { x: x0 as i32, y: y0 as i32 }),
            forall|i: int| 0 <= i < points@.len() - 1 ==> #[trigger] king_step(points@[i], points@[i + 1]),
            forall|i: int| 0 <= i < points@.len() ==> #[trigger] near_segment(start, end, points@[i]),
        decreases (dx - kx) + (dy - ky),
    {
        let p = Pos { x: x0 as i32, y: y0 as i32 };
        assert(near_segment(start, end, p));
        points.push(p);
        if x0 == x1 && y0 == y1 {
            return points;
        }
        let e2: i64 = 2 * err;
        let ghost d_before = d;
        let ghost kx_before = kx;
        let ghost ky_before = ky;
        if e2 > -dy {
            proof {
                if kx == dx {
                    assert(ky < dy);
                    assert(d <= -dx) by (nonlinear_arith)
                        requires d == ky * dx - kx * dy, kx == dx, ky < dy, dx >= 0;
                }
            }
            err -= dy;
            x0 += sx;
            proof {
                kx = kx + 1;
                d = d - dy;
                assert(d == ky * dx - kx * dy) by (nonlinear_arith)
                    requires d == d_before - dy, d_before == ky * dx - kx_before * dy, kx == kx_before + 1;
            }
        }
        if x0 == x1 && y0 == y1 {
            let q = Pos { x: x0 as i32, y: y0 as i32 };
            assert(d == 0) by (nonlinear_arith)
                requires d == ky * dx - kx * dy, kx == dx, ky == dy;
            assert(near_segment(start, end, q));
            points.push(q);
            return points;
        }
        if e2 < dx {
            proof {
                if ky == dy {
                    assert(kx < dx);
                    assert(d_before >= dy * (dx - kx_before)) by (nonlinear_arith)
                        requires d_before == ky * dx - kx_before * dy, ky == dy;
                    assert(dy * (dx - kx_before) >= dy) by (nonlinear_arith)
                        requires kx_before < dx, dy >= 0;
                }
            }
            err += dx;
            y0 += sy;
            proof {
                let d_mid = d;
                ky = ky + 1;
                d = d + dx;
                assert(d == ky * dx - kx * dy) by (nonlinear_arith)
                    requires d == d_mid + dx, d_mid == (ky - 1) * dx - kx * dy;
            }
        }
    }
}

} // verus!
