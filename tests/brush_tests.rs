use falling_sand::brush::Brush;
use falling_sand::geometry::Pos;
use falling_sand::material::{CellType, GranularType};
use falling_sand::world::World;
use rand::rngs::StdRng;
use rand::SeedableRng;

fn sorted(mut v: Vec<Pos>) -> Vec<(i32, i32)> {
    let mut out: Vec<(i32, i32)> = v.drain(..).map(|p| (p.x, p.y)).collect();
    out.sort();
    out
}

fn expected(center: Pos, span: i32, keep: impl Fn(i32, i32) -> bool) -> Vec<(i32, i32)> {
    let mut out = Vec::new();
    for dx in -span..=span {
        for dy in -span..=span {
            if keep(dx, dy) {
                out.push((center.x + dx, center.y + dy));
            }
        }
    }
    out.sort();
    out
}

#[test]
fn square_brush_covers_half_diameter_box() {
    let mut rng = StdRng::seed_from_u64(3);
    let c = Pos::new(10, -4);
    for d in 0..12 {
        let pts = Brush::Square.get_points(d, c, &mut rng);
        let want = expected(c, d, |dx, dy| 2 * dx.abs() <= d && 2 * dy.abs() <= d);
        assert_eq!(sorted(pts), want, "diameter {}", d);
    }
    assert_eq!(Brush::Square.get_points(1, c, &mut rng), vec![c]);
    assert_eq!(Brush::Square.get_points(3, c, &mut rng).len(), 9);
}

#[test]
fn circle_brush_covers_disc() {
    let mut rng = StdRng::seed_from_u64(4);
    let c = Pos::new(0, 0);
    for d in 0..12 {
        let pts = Brush::Circle.get_points(d, c, &mut rng);
        let want = expected(c, d, |dx, dy| 4 * (dx * dx + dy * dy) <= d * d);
        assert_eq!(sorted(pts), want, "diameter {}", d);
    }
    assert_eq!(Brush::Circle.get_points(5, c, &mut rng).len(), 21);
    assert_eq!(Brush::Circle.get_points(1, c, &mut rng), vec![c]);
}

#[test]
fn diamond_brush_covers_rhombus() {
    let mut rng = StdRng::seed_from_u64(5);
    let c = Pos::new(3, 3);
    let pts = Brush::Diamond.get_points(4, c, &mut rng);
    assert_eq!(pts.len(), 13);
    assert_eq!(sorted(pts), expected(c, 4, |dx, dy| dx.abs() + dy.abs() <= 2));
}

#[test]
fn negative_diameter_square_is_empty() {
    let mut rng = StdRng::seed_from_u64(5);
    assert!(Brush::Square.get_points(-3, Pos::new(0, 0), &mut rng).is_empty());
}

#[test]
fn random_brush_scatters_inside_circle() {
    let mut rng = StdRng::seed_from_u64(6);
    let c = Pos::new(0, 0);
    let mut total = 0usize;
    for _ in 0..20 {
        let pts = Brush::Random.get_points(50, c, &mut rng);
        for p in &pts {
            assert!(4 * (p.x * p.x + p.y * p.y) <= 50 * 50);
        }
        let mut s = sorted(pts.clone());
        s.dedup();
        assert_eq!(s.len(), pts.len());
        total += pts.len();
    }
    // about 1960 points in the disc, each kept with probability 1/100, 20 times
    assert!(total > 250 && total < 550, "kept {}", total);
}

#[test]
fn square_stroke_paints_exactly_the_segment() {
    let mut rng = StdRng::seed_from_u64(7);
    let mut world = World::new(Pos::new(14, 3), &mut rng);
    let sand = CellType::Granular(GranularType::Sand, false, false);
    Brush::Square.draw(1, Pos::new(0, 0), Pos::new(10, 0), sand, &mut world, &mut rng);
    for x in 0..=10 {
        assert_eq!(world.grid.get(Pos::new(x, 0)).typ, sand);
    }
    for x in 11..14 {
        assert_eq!(world.grid.get(Pos::new(x, 0)).typ, CellType::Empty);
    }
    for x in 0..14 {
        for y in 1..3 {
            assert_eq!(world.grid.get(Pos::new(x, y)).typ, CellType::Empty);
        }
    }
}

#[test]
fn stroke_clips_at_the_border() {
    let mut rng = StdRng::seed_from_u64(8);
    let mut world = World::new(Pos::new(4, 4), &mut rng);
    Brush::Circle.draw(5, Pos::new(-3, 0), Pos::new(0, 0), CellType::Fire, &mut world, &mut rng);
    assert_eq!(world.grid.get(Pos::new(0, 0)).typ, CellType::Fire);
    assert_eq!(world.grid.get(Pos::new(2, 1)).typ, CellType::Fire);
    assert_eq!(world.grid.get(Pos::new(3, 3)).typ, CellType::Empty);
}

#[test]
fn circle_points_come_in_row_major_order() {
    let mut rng = StdRng::seed_from_u64(9);
    let pts = Brush::Circle.get_points(2, Pos::new(0, 0), &mut rng);
    assert_eq!(
        pts,
        vec![Pos::new(0, -1), Pos::new(-1, 0), Pos::new(0, 0), Pos::new(1, 0), Pos::new(0, 1)]
    );
}
