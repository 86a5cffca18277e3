//! How cells look: their names and colours.
use vstd::prelude::*;
use crate::color::{background_color, background_spec, blend, blend_spec, rgb, rgb_spec, Rgb, BLEND_ONE};
use crate::grid::Grid;
use crate::mass::MASS_UNIT;
use crate::material::{Cell, CellType, WireType, VIRUS_LIFETIME};
use crate::registry::{fluid_info, fluid_spec, granular_info, granular_spec, solid_info, solid_spec};

verus! {

/// How much of a fluid's own colour shows, in thousandths: in proportion to its
/// mass, between one half and all of it.
pub open spec fn fluid_weight(m: u64) -> u32 {
    let w = m * BLEND_ONE / MASS_UNIT as int;
    if w < 500 {
        500
    } else if w > 1000 {
        1000
    } else {
        w as u32
    }
}

/// How much of a virus's own colour shows, in thousandths: fading as its
/// lifetime runs out.
pub open spec fn virus_weight(t: i32) -> u32 {
    let w = if t < 0 { 0 } else { t * BLEND_ONE / (VIRUS_LIFETIME + 2) as int };
    if w > 1000 {
        1000
    } else {
        w as u32
    }
}

pub open spec fn color_spec(c: CellType) -> Rgb {
    match c {
        CellType::Empty => background_spec(),
        CellType::Solid(t) => solid_spec(t).color,
        CellType::Granular(t, _, _) => granular_spec(t).color,
        CellType::Fluid(t, m) => blend_spec(fluid_spec(t).color, background_spec(), fluid_weight(m)),
        CellType::WaterGenerator => rgb_spec(0, 127, 255),
        CellType::SandGenerator => rgb_spec(229, 127, 51),
        CellType::Destroyer => rgb_spec(0, 0, 0),
        CellType::Plant => rgb_spec(0, 153, 0),
        CellType::Fire => rgb_spec(255, 82, 0),
        CellType::Torch => rgb_spec(255, 25, 0),
        CellType::ExplodingNitro(_) => rgb_spec(76, 127, 76),
        CellType::LifeOn => rgb_spec(255, 255, 255),
        CellType::LifeTurningOn => rgb_spec(204, 204, 204),
        CellType::Wire(WireType::Normal) => rgb_spec(204, 102, 0),
        CellType::Wire(WireType::Input) => rgb_spec(204, 102, 127),
        CellType::Wire(WireType::Output) => rgb_spec(204, 229, 127),
        CellType::Wire(WireType::Nor(false)) => rgb_spec(178, 102, 51),
        CellType::Wire(WireType::Nor(true)) => rgb_spec(229, 76, 25),
        CellType::Wire(WireType::SignalEmitter) => rgb_spec(255, 255, 178),
        CellType::ElectronHead(_) => rgb_spec(255, 255, 127),
        CellType::ElectronTail(_, _) => rgb_spec(127, 51, 255),
        CellType::Eater => rgb_spec(0, 0, 0),
        CellType::Fuse(false) => rgb_spec(127, 25, 0),
        CellType::Fuse(true) => rgb_spec(204, 38, 0),
        CellType::Virus(t) => blend_spec(rgb_spec(255, 63, 0), background_spec(), virus_weight(t)),
    }
}

pub open spec fn name_spec(c: CellType) -> &'static str {
    match c {
        CellType::Empty => "empty",
        CellType::Solid(t) => solid_spec(t).name,
        CellType::Granular(t, _, _) => granular_spec(t).name,
        CellType::Fluid(t, _) => fluid_spec(t).name,
        CellType::WaterGenerator => "water generator",
        CellType::SandGenerator => "sand generator",
        CellType::Destroyer => "destroyer",
        CellType::Plant => "plant",
        CellType::Fire => "fire",
        CellType::Torch => "torch",
        CellType::ExplodingNitro(..) => "exploding nitro",
        CellType::LifeOn => "life cell",
        CellType::LifeTurningOn => "life cell",
        CellType::Wire(WireType::Normal) => "wire",
        CellType::Wire(WireType::Input) => "wire input",
        CellType::Wire(WireType::Output) => "wire output",
        CellType::Wire(WireType::Nor(_)) => "wire nor",
        CellType::Wire(WireType::SignalEmitter) => "signal emitter",
        CellType::ElectronHead(_) => "electron head",
        CellType::ElectronTail(_, _) => "electron tail",
        CellType::Eater => "eater",
        CellType::Fuse(_) => "fuse",
        CellType::Virus(_) => "virus",
    }
}

fn fluid_weight_of(m: u64) -> (r: u32)
    ensures
        r == fluid_weight(m),
{
    let w: u64 = if m > 1_000_000_000_000 { 1001 } else { m * 1000 / MASS_UNIT };
    assert(m > 1_000_000_000_000 ==> m * 1000 / 1_000_000 > 1000);
    if w < 500 {
        500
    } else if w > 1000 {
        1000
    } else {
        w as u32
    }
}

fn virus_weight_of(t: i32) -> (r: u32)
    ensures
        r == virus_weight(t),
{
    let w: i64 = if t < 0 { 0 } else { t as i64 * 1000 / (VIRUS_LIFETIME as i64 + 2) };
    if w > 1000 {
        1000
    } else {
        w as u32
    }
}

impl CellType {
    /// The material's display name.
    pub fn name(self, grid: &Grid) -> (r: &'static str)
        ensures
            r == name_spec(self),
    {
        match self {
            CellType::Empty => "empty",
            CellType::Solid(typ) => solid_info(typ).name,
            CellType::Granular(typ, _, _) => granular_info(typ).name,
            CellType::Fluid(typ, _) => fluid_info(typ).name,
            CellType::WaterGenerator => "water generator",
            CellType::SandGenerator => "sand generator",
            CellType::Destroyer => "destroyer",
            CellType::Plant => "plant",
            CellType::Fire => "fire",
            CellType::Torch => "torch",
            CellType::ExplodingNitro(..) => "exploding nitro",
            CellType::LifeOn => "life cell",
            CellType::LifeTurningOn => "life cell",
            CellType::Wire(WireType::Normal) => "wire",
            CellType::Wire(WireType::Input) => "wire input",
            CellType::Wire(WireType::Output) => "wire output",
            CellType::Wire(WireType::Nor(_)) => "wire nor",
            CellType::Wire(WireType::SignalEmitter) => "signal emitter",
            CellType::ElectronHead(_) => "electron head",
            CellType::ElectronTail(_, _) => "electron tail",
            CellType::Eater => "eater",
            CellType::Fuse(_) => "fuse",
            CellType::Virus(_) => "virus",
        }
    }
}

impl Cell {
    /// The cell's display colour; fluids fade into the background as they
    /// thin out, viruses as they age.
    pub fn color(self, grid: &Grid) -> (r: Rgb)
        ensures
            r == color_spec(self.typ),
    {
        match self.typ {
            CellType::Empty => background_color(),
            CellType::Solid(typ) => solid_info(typ).color,
            CellType::Granular(typ, _, _) => granular_info(typ).color,
            CellType::Fluid(typ, amount) => blend(fluid_info(typ).color, background_color(), fluid_weight_of(amount)),
            CellType::WaterGenerator => rgb(0, 127, 255),
            CellType::SandGenerator => rgb(229, 127, 51),
            CellType::Destroyer => rgb(0, 0, 0),
            CellType::Plant => rgb(0, 153, 0),
            CellType::Fire => rgb(255, 82, 0),
            CellType::Torch => rgb(255, 25, 0),
            CellType::ExplodingNitro(..) => rgb(76, 127, 76),
            CellType::LifeOn => rgb(255, 255, 255),
            CellType::LifeTurningOn => rgb(204, 204, 204),
            CellType::Wire(WireType::Normal) => rgb(204, 102, 0),
            CellType::Wire(WireType::Input) => rgb(204, 102, 127),
            CellType::Wire(WireType::Output) => rgb(204, 229, 127),
            CellType::Wire(WireType::Nor(false)) => rgb(178, 102, 51),
            CellType::Wire(WireType::Nor(true)) => rgb(229, 76, 25),
            CellType::Wire(WireType::SignalEmitter) => rgb(255, 255, 178),
            CellType::ElectronHead(_) => rgb(255, 255, 127),
            CellType::ElectronTail(_, _) => rgb(127, 51, 255),
            CellType::Eater => rgb(0, 0, 0),
            CellType::Fuse(false) => rgb(127, 25, 0),
            CellType::Fuse(true) => rgb(204, 38, 0),
            CellType::Virus(lifetime) => blend(rgb(255, 63, 0), background_color(), virus_weight_of(lifetime)),
        }
    }
}

} // verus!
