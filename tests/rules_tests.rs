use falling_sand::geometry::Pos;
use falling_sand::grid::Grid;
use falling_sand::mass::MASS_UNIT;
use falling_sand::random::{below, cardinal_of};
use falling_sand::rules::{fluid_fall, fluid_level, fluid_rise, fluid_spread};
use falling_sand::material::{
    Cell, CellType, FluidType, GranularType, SolidType, WireType, TAIL_LIFETIME, VIRUS_LIFETIME,
};
use rand::rngs::StdRng;
use rand::SeedableRng;

fn step(grid: &mut Grid, p: Pos, rng: &mut StdRng) {
    let cell = grid.get(p);
    cell.simulate(grid, p, rng);
}

#[test]
fn wire_next_to_head_carries_the_signal_then_recovers() {
    let mut rng = StdRng::seed_from_u64(1);
    let mut g = Grid::new(Pos::new(3, 1));
    g.set(Pos::new(0, 0), CellType::ElectronHead(WireType::Normal));
    g.set(Pos::new(1, 0), CellType::Wire(WireType::Normal));
    let w = Pos::new(1, 0);
    step(&mut g, w, &mut rng);
    assert_eq!(g.get(w).typ, CellType::ElectronHead(WireType::Normal));
    // TAIL_LIFETIME ticks after becoming a head the cell is a plain wire again
    for _ in 0..TAIL_LIFETIME - 1 {
        step(&mut g, w, &mut rng);
        assert!(matches!(g.get(w).typ, CellType::ElectronTail(WireType::Normal, _)));
    }
    step(&mut g, w, &mut rng);
    assert_eq!(g.get(w).typ, CellType::Wire(WireType::Normal));
}

#[test]
fn lone_wire_stays_wire() {
    let mut rng = StdRng::seed_from_u64(1);
    let mut g = Grid::new(Pos::new(3, 3));
    g.set(Pos::new(1, 1), CellType::Wire(WireType::Normal));
    g.set(Pos::new(0, 0), CellType::ElectronTail(WireType::Normal, 1));
    step(&mut g, Pos::new(1, 1), &mut rng);
    assert_eq!(g.get(Pos::new(1, 1)).typ, CellType::Wire(WireType::Normal));
}

#[test]
fn signal_emitter_always_fires() {
    let mut rng = StdRng::seed_from_u64(1);
    let mut g = Grid::new(Pos::new(1, 1));
    g.set(Pos::new(0, 0), CellType::Wire(WireType::SignalEmitter));
    step(&mut g, Pos::new(0, 0), &mut rng);
    assert_eq!(g.get(Pos::new(0, 0)).typ, CellType::ElectronHead(WireType::SignalEmitter));
}

#[test]
fn nor_wire_latches_on_a_normal_head() {
    let mut rng = StdRng::seed_from_u64(1);
    let mut g = Grid::new(Pos::new(2, 1));
    g.set(Pos::new(0, 0), CellType::ElectronHead(WireType::Normal));
    g.set(Pos::new(1, 0), CellType::Wire(WireType::Nor(false)));
    step(&mut g, Pos::new(1, 0), &mut rng);
    assert_eq!(g.get(Pos::new(1, 0)).typ, CellType::Wire(WireType::Nor(true)));
}

#[test]
fn nor_tail_recovers_unlatched() {
    let mut rng = StdRng::seed_from_u64(1);
    let mut g = Grid::new(Pos::new(1, 1));
    g.set(Pos::new(0, 0), CellType::ElectronTail(WireType::Nor(true), 1));
    step(&mut g, Pos::new(0, 0), &mut rng);
    assert_eq!(g.get(Pos::new(0, 0)).typ, CellType::Wire(WireType::Nor(false)));
}

#[test]
fn wire_compatibility_table() {
    assert!(!WireType::Output.can_signal_to(WireType::Input));
    assert!(WireType::Output.can_signal_to(WireType::Normal));
    assert!(WireType::Output.can_signal_to(WireType::Nor(true)));
    assert!(WireType::Input.can_signal_to(WireType::Nor(true)));
    assert!(!WireType::Input.can_signal_to(WireType::SignalEmitter));
    assert!(WireType::Input.can_signal_to(WireType::Output));
    assert!(WireType::Normal.can_signal_to(WireType::Nor(false)));
    assert!(!WireType::Normal.can_signal_to(WireType::Nor(true)));
    assert!(!WireType::Normal.can_signal_to(WireType::SignalEmitter));
    assert!(WireType::Normal.can_signal_to(WireType::Normal));
    assert!(WireType::Nor(true).can_signal_to(WireType::Nor(false)));
    assert!(WireType::Nor(false).can_signal_to(WireType::Output));
    assert!(!WireType::Nor(true).can_signal_to(WireType::Output));
    assert!(!WireType::Nor(false).can_signal_to(WireType::Normal));
    assert!(!WireType::Nor(false).can_signal_to(WireType::Input));
    assert!(WireType::SignalEmitter.can_signal_to(WireType::Input));
    assert!(WireType::SignalEmitter.can_signal_to(WireType::SignalEmitter));
    assert_eq!(WireType::Nor(true).transition_to(), WireType::Nor(false));
    assert_eq!(WireType::Input.transition_to(), WireType::Input);
}

#[test]
fn life_birth_survival_and_death() {
    let mut rng = StdRng::seed_from_u64(1);
    let mut g = Grid::new(Pos::new(3, 3));
    g.set(Pos::new(0, 0), CellType::LifeOn);
    g.set(Pos::new(1, 0), CellType::LifeOn);
    g.set(Pos::new(2, 0), CellType::LifeOn);
    // an empty cell with three live neighbours comes to life, in two steps
    step(&mut g, Pos::new(1, 1), &mut rng);
    assert_eq!(g.get(Pos::new(1, 1)).typ, CellType::LifeTurningOn);
    // the new cell is marked for this tick; it turns on in the next one
    step(&mut g, Pos::new(1, 1), &mut rng);
    assert_eq!(g.get(Pos::new(1, 1)).typ, CellType::LifeTurningOn);
    g.begin_tick();
    step(&mut g, Pos::new(1, 1), &mut rng);
    assert_eq!(g.get(Pos::new(1, 1)).typ, CellType::LifeOn);
    // (1,0) now has three counted neighbours and survives
    step(&mut g, Pos::new(1, 0), &mut rng);
    assert_eq!(g.get(Pos::new(1, 0)).typ, CellType::LifeOn);
    // a lone live cell dies
    let mut h = Grid::new(Pos::new(3, 3));
    h.set(Pos::new(1, 1), CellType::LifeOn);
    step(&mut h, Pos::new(1, 1), &mut rng);
    assert_eq!(h.get(Pos::new(1, 1)).typ, CellType::Empty);
}

#[test]
fn life_counts_other_materials_with_life() {
    let mut rng = StdRng::seed_from_u64(1);
    let mut g = Grid::new(Pos::new(3, 3));
    g.set(Pos::new(0, 0), CellType::LifeOn);
    g.set(Pos::new(1, 0), CellType::Solid(SolidType::Wall));
    g.set(Pos::new(2, 0), CellType::Solid(SolidType::Wall));
    g.set(Pos::new(0, 1), CellType::Solid(SolidType::Wall));
    step(&mut g, Pos::new(1, 1), &mut rng);
    assert_eq!(g.get(Pos::new(1, 1)).typ, CellType::LifeTurningOn);
}

#[test]
fn fuse_catches_and_burns() {
    let mut rng = StdRng::seed_from_u64(1);
    let mut g = Grid::new(Pos::new(2, 2));
    g.set(Pos::new(0, 0), CellType::Fuse(false));
    step(&mut g, Pos::new(0, 0), &mut rng);
    assert_eq!(g.get(Pos::new(0, 0)).typ, CellType::Fuse(false));
    g.set(Pos::new(1, 1), CellType::Fire);
    step(&mut g, Pos::new(0, 0), &mut rng);
    assert_eq!(g.get(Pos::new(0, 0)).typ, CellType::Fuse(true));
    step(&mut g, Pos::new(0, 0), &mut rng);
    assert_eq!(g.get(Pos::new(0, 0)).typ, CellType::Fire);
}

#[test]
fn torch_lights_the_cell_above() {
    let mut rng = StdRng::seed_from_u64(1);
    let mut g = Grid::new(Pos::new(1, 2));
    g.set(Pos::new(0, 1), CellType::Torch);
    step(&mut g, Pos::new(0, 1), &mut rng);
    assert_eq!(g.get(Pos::new(0, 0)).typ, CellType::Fire);
    assert_eq!(g.get(Pos::new(0, 1)).typ, CellType::Torch);
}

#[test]
fn destroyer_clears_the_cell_above() {
    let mut rng = StdRng::seed_from_u64(1);
    let mut g = Grid::new(Pos::new(1, 2));
    g.set(Pos::new(0, 0), CellType::Solid(SolidType::Wall));
    g.set(Pos::new(0, 1), CellType::Destroyer);
    step(&mut g, Pos::new(0, 1), &mut rng);
    assert_eq!(g.get(Pos::new(0, 0)).typ, CellType::Empty);
}

#[test]
fn generators_fill_the_cell_below() {
    let mut rng = StdRng::seed_from_u64(1);
    let mut g = Grid::new(Pos::new(2, 2));
    g.set(Pos::new(0, 0), CellType::WaterGenerator);
    g.set(Pos::new(1, 0), CellType::SandGenerator);
    step(&mut g, Pos::new(0, 0), &mut rng);
    step(&mut g, Pos::new(1, 0), &mut rng);
    assert_eq!(g.get(Pos::new(0, 1)).typ, CellType::Fluid(FluidType::Water, MASS_UNIT));
    assert_eq!(g.get(Pos::new(1, 1)).typ, CellType::Granular(GranularType::Sand, false, false));
    assert!(g.updated(Pos::new(0, 1)));
    assert!(g.updated(Pos::new(1, 1)));
}

#[test]
fn updated_cell_is_skipped() {
    let mut rng = StdRng::seed_from_u64(1);
    let mut g = Grid::new(Pos::new(1, 1));
    g.set(Pos::new(0, 0), CellType::LifeTurningOn);
    g.update(Pos::new(0, 0));
    step(&mut g, Pos::new(0, 0), &mut rng);
    assert_eq!(g.get(Pos::new(0, 0)).typ, CellType::LifeTurningOn);
}

#[test]
fn lone_sand_grain_falls_straight_with_probability_one_minus_spread() {
    let mut rng = StdRng::seed_from_u64(2024);
    let trials = 10_000;
    let mut straight = 0;
    let sand = CellType::Granular(GranularType::Sand, false, false);
    for _ in 0..trials {
        let mut g = Grid::new(Pos::new(3, 2));
        g.set(Pos::new(1, 0), sand);
        step(&mut g, Pos::new(1, 0), &mut rng);
        assert_eq!(g.get(Pos::new(1, 0)).typ, CellType::Empty);
        let landed: Vec<i32> = (0..3)
            .filter(|&x| matches!(g.get(Pos::new(x, 1)).typ, CellType::Granular(GranularType::Sand, _, _)))
            .collect();
        assert_eq!(landed.len(), 1);
        assert!(g.updated(Pos::new(landed[0], 1)));
        if landed[0] == 1 {
            straight += 1;
        }
    }
    // horizontal_spread of sand is 0.05
    let frac = straight as f64 / trials as f64;
    assert!(frac > 0.94 && frac < 0.96, "straight fraction {}", frac);
}

#[test]
fn grain_between_walls_falls_straight() {
    let mut rng = StdRng::seed_from_u64(9);
    let mut g = Grid::new(Pos::new(3, 2));
    g.set(Pos::new(1, 0), CellType::Granular(GranularType::Dirt, false, false));
    g.set(Pos::new(0, 1), CellType::Solid(SolidType::Wall));
    g.set(Pos::new(2, 1), CellType::Solid(SolidType::Wall));
    step(&mut g, Pos::new(1, 0), &mut rng);
    assert!(matches!(g.get(Pos::new(1, 1)).typ, CellType::Granular(GranularType::Dirt, _, _)));
    assert!(g.updated(Pos::new(1, 1)));
}

#[test]
fn resting_grain_stays() {
    let mut rng = StdRng::seed_from_u64(9);
    let mut g = Grid::new(Pos::new(1, 1));
    g.set(Pos::new(0, 0), CellType::Granular(GranularType::Snow, true, true));
    step(&mut g, Pos::new(0, 0), &mut rng);
    assert_eq!(g.get(Pos::new(0, 0)).typ, CellType::Granular(GranularType::Snow, true, true));
}

#[test]
fn water_pours_sideways_three_quarters() {
    let mut rng = StdRng::seed_from_u64(11);
    let mut g = Grid::new(Pos::new(2, 1));
    g.set(Pos::new(0, 0), CellType::Fluid(FluidType::Water, 1_000_000));
    step(&mut g, Pos::new(0, 0), &mut rng);
    // nothing below; the empty side takes three quarters, then the two level
    // out only towards the side holding less, which is this cell
    assert_eq!(g.get(Pos::new(0, 0)).typ, CellType::Fluid(FluidType::Water, 250_000));
    assert_eq!(g.get(Pos::new(1, 0)).typ, CellType::Fluid(FluidType::Water, 750_000));
    assert!(g.updated(Pos::new(1, 0)));
}

#[test]
fn water_levels_with_a_lower_neighbour() {
    let mut rng = StdRng::seed_from_u64(12);
    let mut g = Grid::new(Pos::new(2, 1));
    g.set(Pos::new(0, 0), CellType::Fluid(FluidType::Water, 900_000));
    g.set(Pos::new(1, 0), CellType::Fluid(FluidType::Water, 100_000));
    step(&mut g, Pos::new(0, 0), &mut rng);
    assert_eq!(g.get(Pos::new(0, 0)).typ, CellType::Fluid(FluidType::Water, 500_000));
    assert_eq!(g.get(Pos::new(1, 0)).typ, CellType::Fluid(FluidType::Water, 500_000));
}

#[test]
fn stacked_water_settles_by_stable_state() {
    let mut rng = StdRng::seed_from_u64(13);
    let mut merged = 0;
    for _ in 0..200 {
        let mut g = Grid::new(Pos::new(1, 2));
        g.set(Pos::new(0, 0), CellType::Fluid(FluidType::Water, 1_000_000));
        g.set(Pos::new(0, 1), CellType::Fluid(FluidType::Water, 500_000));
        step(&mut g, Pos::new(0, 0), &mut rng);
        let top = g.get(Pos::new(0, 0)).typ;
        let bottom = g.get(Pos::new(0, 1)).typ;
        if top != CellType::Fluid(FluidType::Water, 1_000_000) {
            merged += 1;
            // 1.5 cells in the column: 1.0238 of it stays low
            assert_eq!(bottom, CellType::Fluid(FluidType::Water, 1_023_809));
            assert_eq!(top, CellType::Fluid(FluidType::Water, 476_191));
        }
    }
    assert!(merged > 150);
}

#[test]
fn oil_rises_through_water_sometimes() {
    let mut rng = StdRng::seed_from_u64(14);
    let mut swapped = 0;
    for _ in 0..1000 {
        let mut g = Grid::new(Pos::new(1, 2));
        g.set(Pos::new(0, 0), CellType::Fluid(FluidType::Water, 1_000_000));
        g.set(Pos::new(0, 1), CellType::Fluid(FluidType::Oil, 1_000_000));
        step(&mut g, Pos::new(0, 0), &mut rng);
        if g.get(Pos::new(0, 0)).typ == CellType::Fluid(FluidType::Oil, 1_000_000) {
            assert_eq!(g.get(Pos::new(0, 1)).typ, CellType::Fluid(FluidType::Water, 1_000_000));
            swapped += 1;
        }
    }
    // straight down with 0.95, then swap with min(1.0 / 0.9, 2) - 1 = 0.111
    assert!(swapped > 60 && swapped < 150, "swapped {}", swapped);
}

#[test]
fn methane_falls_upwards() {
    let mut rng = StdRng::seed_from_u64(15);
    let mut g = Grid::new(Pos::new(1, 2));
    g.set(Pos::new(0, 1), CellType::Fluid(FluidType::Methane, 1_000_000));
    let mut moved = false;
    for _ in 0..50 {
        g.begin_tick();
        step(&mut g, Pos::new(0, 1), &mut rng);
        if g.get(Pos::new(0, 0)).typ == CellType::Fluid(FluidType::Methane, 1_000_000) {
            moved = true;
            break;
        }
    }
    assert!(moved);
    assert_eq!(g.get(Pos::new(0, 1)).typ, CellType::Empty);
}

#[test]
fn cement_sets_on_solid_ground() {
    let mut rng = StdRng::seed_from_u64(16);
    let mut g = Grid::new(Pos::new(1, 2));
    g.set(Pos::new(0, 0), CellType::Fluid(FluidType::Cement, 1_000_000));
    g.set(Pos::new(0, 1), CellType::Solid(SolidType::Wall));
    for _ in 0..600 {
        g.begin_tick();
        step(&mut g, Pos::new(0, 0), &mut rng);
    }
    assert_eq!(g.get(Pos::new(0, 0)).typ, CellType::Solid(SolidType::Wall));
}

#[test]
fn virus_ages_and_dies_alone() {
    let mut rng = StdRng::seed_from_u64(17);
    let mut g = Grid::new(Pos::new(1, 1));
    g.set(Pos::new(0, 0), CellType::Virus(2));
    step(&mut g, Pos::new(0, 0), &mut rng);
    assert_eq!(g.get(Pos::new(0, 0)).typ, CellType::Virus(1));
    step(&mut g, Pos::new(0, 0), &mut rng);
    step(&mut g, Pos::new(0, 0), &mut rng);
    assert_eq!(g.get(Pos::new(0, 0)).typ, CellType::Empty);
}

#[test]
fn virus_spreads_into_empty_cells() {
    let mut rng = StdRng::seed_from_u64(18);
    let mut g = Grid::new(Pos::new(3, 3));
    let mut spread = false;
    for _ in 0..100 {
        g.set(Pos::new(1, 1), CellType::Virus(VIRUS_LIFETIME));
        step(&mut g, Pos::new(1, 1), &mut rng);
        for q in [Pos::new(1, 0), Pos::new(0, 1), Pos::new(2, 1), Pos::new(1, 2)] {
            if g.get(q).typ == CellType::Virus(VIRUS_LIFETIME) {
                spread = true;
            }
        }
    }
    assert!(spread);
}

#[test]
fn shockwave_dies_at_the_border() {
    let mut rng = StdRng::seed_from_u64(19);
    let mut g = Grid::new(Pos::new(1, 1));
    g.set(Pos::new(0, 0), CellType::ExplodingNitro(Pos::new(1, 0)));
    step(&mut g, Pos::new(0, 0), &mut rng);
    assert_eq!(g.get(Pos::new(0, 0)).typ, CellType::Empty);
}

#[test]
fn fire_burns_plants_and_boils_water() {
    let mut rng = StdRng::seed_from_u64(20);
    let mut burnt = false;
    let mut boiled = false;
    for _ in 0..200 {
        let mut g = Grid::new(Pos::new(3, 3));
        g.set(Pos::new(1, 1), CellType::Fire);
        g.set(Pos::new(0, 1), CellType::Plant);
        g.set(Pos::new(2, 1), CellType::Fluid(FluidType::Water, 700_000));
        g.set(Pos::new(1, 0), CellType::Solid(SolidType::Wall));
        g.set(Pos::new(1, 2), CellType::Solid(SolidType::Wall));
        step(&mut g, Pos::new(1, 1), &mut rng);
        if g.get(Pos::new(0, 1)).typ == CellType::Fire {
            burnt = true;
        }
        if g.get(Pos::new(2, 1)).typ == CellType::Fluid(FluidType::Steam, 700_000) {
            boiled = true;
        }
    }
    assert!(burnt && boiled);
}

#[test]
fn plant_drinks_water() {
    let mut rng = StdRng::seed_from_u64(21);
    let mut g = Grid::new(Pos::new(3, 3));
    g.set(Pos::new(1, 1), CellType::Plant);
    for q in [Pos::new(1, 0), Pos::new(0, 1), Pos::new(2, 1), Pos::new(1, 2)] {
        g.set(q, CellType::Fluid(FluidType::Water, 1_000_000));
    }
    step(&mut g, Pos::new(1, 1), &mut rng);
    let plants = [Pos::new(1, 0), Pos::new(0, 1), Pos::new(2, 1), Pos::new(1, 2)]
        .iter()
        .filter(|&&q| g.get(q).typ == CellType::Plant)
        .count();
    assert_eq!(plants, 1);
}

#[test]
fn eater_eats_its_neighbour() {
    let mut rng = StdRng::seed_from_u64(22);
    let mut g = Grid::new(Pos::new(3, 3));
    g.set(Pos::new(1, 1), CellType::Eater);
    for q in [Pos::new(1, 0), Pos::new(0, 1), Pos::new(2, 1), Pos::new(1, 2)] {
        g.set(q, CellType::Solid(SolidType::Wall));
    }
    step(&mut g, Pos::new(1, 1), &mut rng);
    let eaters = [Pos::new(1, 0), Pos::new(0, 1), Pos::new(2, 1), Pos::new(1, 2)]
        .iter()
        .filter(|&&q| g.get(q).typ == CellType::Eater)
        .count();
    assert_eq!(eaters, 1);
}

#[test]
fn cell_names() {
    let g = Grid::new(Pos::new(1, 1));
    assert_eq!(CellType::Granular(GranularType::Sand, true, false).name(&g), "sand");
    assert_eq!(CellType::Fluid(FluidType::Methane, 5).name(&g), "methane");
    assert_eq!(CellType::Solid(SolidType::Ice).name(&g), "ice");
    assert_eq!(CellType::Wire(WireType::Nor(true)).name(&g), "wire nor");
    assert_eq!(CellType::LifeTurningOn.name(&g), "life cell");
    assert_eq!(CellType::Virus(3).name(&g), "virus");
    let _ = Cell { typ: CellType::Empty };
}

#[test]
fn head_becomes_a_short_tail() {
    let mut rng = StdRng::seed_from_u64(2);
    let mut g = Grid::new(Pos::new(1, 1));
    g.set(Pos::new(0, 0), CellType::ElectronHead(WireType::Input));
    step(&mut g, Pos::new(0, 0), &mut rng);
    assert_eq!(g.get(Pos::new(0, 0)).typ, CellType::ElectronTail(WireType::Input, TAIL_LIFETIME - 1));
}

#[test]
fn fluid_fall_merges_with_the_same_fluid() {
    let mut rng = StdRng::seed_from_u64(40);
    let mut g = Grid::new(Pos::new(1, 2));
    g.set(Pos::new(0, 0), CellType::Fluid(FluidType::Water, 1_000_000));
    g.set(Pos::new(0, 1), CellType::Fluid(FluidType::Water, 500_000));
    let r = fluid_fall(&mut g, Pos::new(0, 0), FluidType::Water, 1_000_000, Pos::new(0, 1), false, &mut rng);
    assert_eq!(r, 476_191);
    assert_eq!(g.get(Pos::new(0, 1)).typ, CellType::Fluid(FluidType::Water, 1_023_809));
    assert_eq!(g.get(Pos::new(0, 0)).typ, CellType::Fluid(FluidType::Water, 476_191));
}

#[test]
fn fluid_fall_moves_into_empty_and_marks() {
    let mut rng = StdRng::seed_from_u64(41);
    let mut g = Grid::new(Pos::new(3, 2));
    g.set(Pos::new(1, 0), CellType::Fluid(FluidType::Oil, 700_000));
    let r = fluid_fall(&mut g, Pos::new(1, 0), FluidType::Oil, 700_000, Pos::new(-1, 1), false, &mut rng);
    assert_eq!(r, 0);
    assert_eq!(g.get(Pos::new(1, 0)).typ, CellType::Empty);
    assert_eq!(g.get(Pos::new(0, 1)).typ, CellType::Fluid(FluidType::Oil, 700_000));
    assert!(g.updated(Pos::new(0, 1)));
}

#[test]
fn fluid_fall_sinks_only_when_drawn() {
    let mut rng = StdRng::seed_from_u64(42);
    let mut g = Grid::new(Pos::new(1, 2));
    g.set(Pos::new(0, 0), CellType::Fluid(FluidType::Water, 1_000_000));
    g.set(Pos::new(0, 1), CellType::Fluid(FluidType::Oil, 300_000));
    let r = fluid_fall(&mut g, Pos::new(0, 0), FluidType::Water, 1_000_000, Pos::new(0, 1), false, &mut rng);
    assert_eq!(r, 1_000_000);
    assert_eq!(g.get(Pos::new(0, 1)).typ, CellType::Fluid(FluidType::Oil, 300_000));
    let r = fluid_fall(&mut g, Pos::new(0, 0), FluidType::Water, 1_000_000, Pos::new(0, 1), true, &mut rng);
    assert_eq!(r, 0);
    assert_eq!(g.get(Pos::new(0, 0)).typ, CellType::Fluid(FluidType::Oil, 300_000));
    assert_eq!(g.get(Pos::new(0, 1)).typ, CellType::Fluid(FluidType::Water, 1_000_000));
}

#[test]
fn fluid_spread_pours_three_quarters() {
    let mut rng = StdRng::seed_from_u64(43);
    let mut g = Grid::new(Pos::new(2, 1));
    g.set(Pos::new(1, 0), CellType::Fluid(FluidType::Water, 999_999));
    let r = fluid_spread(&mut g, Pos::new(1, 0), FluidType::Water, 999_999, Pos::new(-1, 0), &mut rng);
    assert_eq!(r, 249_999);
    assert_eq!(g.get(Pos::new(1, 0)).typ, CellType::Fluid(FluidType::Water, 249_999));
    assert_eq!(g.get(Pos::new(0, 0)).typ, CellType::Fluid(FluidType::Water, 750_000));
    assert!(g.updated(Pos::new(0, 0)));
}

#[test]
fn fluid_level_moves_half_the_difference() {
    let mut g = Grid::new(Pos::new(2, 1));
    g.set(Pos::new(0, 0), CellType::Fluid(FluidType::Water, 800_001));
    g.set(Pos::new(1, 0), CellType::Fluid(FluidType::Water, 200_000));
    let r = fluid_level(&mut g, Pos::new(0, 0), FluidType::Water, 800_001, Pos::new(1, 0));
    assert_eq!(r, 500_001);
    assert_eq!(g.get(Pos::new(1, 0)).typ, CellType::Fluid(FluidType::Water, 500_000));
    // nothing flows towards a fuller neighbour
    let r = fluid_level(&mut g, Pos::new(1, 0), FluidType::Water, 500_000, Pos::new(-1, 0));
    assert_eq!(r, 500_000);
    assert_eq!(g.get(Pos::new(0, 0)).typ, CellType::Fluid(FluidType::Water, 500_001));
}

#[test]
fn fluid_rise_pushes_excess_up() {
    let mut rng = StdRng::seed_from_u64(44);
    let mut g = Grid::new(Pos::new(1, 2));
    g.set(Pos::new(0, 1), CellType::Fluid(FluidType::Water, 3_000_000));
    fluid_rise(&mut g, Pos::new(0, 1), FluidType::Water, 3_000_000, &mut rng);
    assert_eq!(g.get(Pos::new(0, 1)).typ, CellType::Fluid(FluidType::Water, 1_525_000));
    assert_eq!(g.get(Pos::new(0, 0)).typ, CellType::Fluid(FluidType::Water, 1_475_000));
    assert!(g.updated(Pos::new(0, 0)));
    // a full cell has nothing to push up
    let mut h = Grid::new(Pos::new(1, 2));
    h.set(Pos::new(0, 1), CellType::Fluid(FluidType::Water, 1_000_000));
    fluid_rise(&mut h, Pos::new(0, 1), FluidType::Water, 1_000_000, &mut rng);
    assert_eq!(h.get(Pos::new(0, 0)).typ, CellType::Empty);
}

#[test]
fn draws_map_to_outcomes() {
    assert!(below(0, 1));
    assert!(!below(1, 1));
    assert!(!below(999_999, 0));
    assert_eq!(cardinal_of(0), Pos::new(1, 0));
    assert_eq!(cardinal_of(250_000), Pos::new(-1, 0));
    assert_eq!(cardinal_of(600_000), Pos::new(0, 1));
    assert_eq!(cardinal_of(999_999), Pos::new(0, -1));
}

#[test]
fn fire_surrounded_by_plants_lights_one() {
    let mut rng = StdRng::seed_from_u64(45);
    for _ in 0..50 {
        let mut g = Grid::new(Pos::new(3, 3));
        g.set(Pos::new(1, 1), CellType::Fire);
        for q in [Pos::new(1, 0), Pos::new(0, 1), Pos::new(2, 1), Pos::new(1, 2)] {
            g.set(q, CellType::Plant);
        }
        step(&mut g, Pos::new(1, 1), &mut rng);
        let lit = [Pos::new(1, 0), Pos::new(0, 1), Pos::new(2, 1), Pos::new(1, 2)]
            .iter()
            .filter(|&&q| g.get(q).typ == CellType::Fire)
            .count();
        assert!(lit >= 1);
    }
}
