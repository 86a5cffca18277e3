use falling_sand::geometry::Pos;
use falling_sand::grid::Grid;
use falling_sand::material::{Cell, CellType, FluidType, SolidType};

#[test]
fn in_range_matches_bounds() {
    let g = Grid::new(Pos::new(4, 3));
    for x in -2..7 {
        for y in -2..6 {
            let expected = x >= 0 && x < 4 && y >= 0 && y < 3;
            assert_eq!(g.in_range(Pos::new(x, y)), expected, "({}, {})", x, y);
        }
    }
}

#[test]
fn new_grid_is_empty_and_unmarked() {
    let g = Grid::new(Pos::new(3, 2));
    assert_eq!(g.size(), Pos::new(3, 2));
    for x in 0..3 {
        for y in 0..2 {
            assert_eq!(g.get(Pos::new(x, y)).typ, CellType::Empty);
            assert!(!g.updated(Pos::new(x, y)));
        }
    }
}

#[test]
fn set_changes_one_cell_only() {
    let mut g = Grid::new(Pos::new(3, 3));
    g.set(Pos::new(1, 2), CellType::Solid(SolidType::Wall));
    assert_eq!(g.get(Pos::new(1, 2)).typ, CellType::Solid(SolidType::Wall));
    assert_eq!(g.get(Pos::new(2, 1)).typ, CellType::Empty);
    assert_eq!(g.get(Pos::new(1, 1)).typ, CellType::Empty);
}

#[test]
fn update_marks_one_cell() {
    let mut g = Grid::new(Pos::new(2, 2));
    g.update(Pos::new(1, 0));
    assert!(g.updated(Pos::new(1, 0)));
    assert!(!g.updated(Pos::new(0, 1)));
}

#[test]
fn begin_tick_clears_dry_fluid_and_flags() {
    let mut g = Grid::new(Pos::new(3, 1));
    g.set(Pos::new(0, 0), CellType::Fluid(FluidType::Water, 1_000));
    g.set(Pos::new(1, 0), CellType::Fluid(FluidType::Water, 1_001));
    g.set(Pos::new(2, 0), CellType::Fluid(FluidType::Oil, 0));
    g.update(Pos::new(1, 0));
    g.begin_tick();
    assert_eq!(g.get(Pos::new(0, 0)).typ, CellType::Empty);
    assert_eq!(g.get(Pos::new(1, 0)).typ, CellType::Fluid(FluidType::Water, 1_001));
    assert_eq!(g.get(Pos::new(2, 0)).typ, CellType::Empty);
    assert!(!g.updated(Pos::new(1, 0)));
}

#[test]
fn moore_counts_in_range_neighbours() {
    let mut g = Grid::new(Pos::new(3, 3));
    assert_eq!(g.moore(Pos::new(0, 0)).len(), 3);
    assert_eq!(g.moore(Pos::new(1, 0)).len(), 5);
    assert_eq!(g.moore(Pos::new(1, 1)).len(), 8);
    g.set(Pos::new(0, 0), CellType::Fire);
    g.set(Pos::new(2, 2), CellType::Plant);
    let n = g.moore(Pos::new(1, 1));
    // columns first: (0,0) is the first neighbour and (2,2) the last
    assert_eq!(n[0], Cell { typ: CellType::Fire });
    assert_eq!(n[7], Cell { typ: CellType::Plant });
    assert!(!n.contains(&Cell { typ: CellType::Solid(SolidType::Wall) }));
}
