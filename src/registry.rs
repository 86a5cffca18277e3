//! The material parameter tables, one record per material kind.
use vstd::prelude::*;
use crate::color::{blend, blend_spec, background_color, background_spec, rgb, rgb_spec, white, white_spec};
use crate::geometry::{down_dir, up_dir, Pos};
use crate::material::{Fluid, FluidType, Granular, GranularType, Solid, SolidType, PROB_ONE};

verus! {

pub open spec fn solid_spec(t: SolidType) -> Solid {
    match t {
        SolidType::Wall => Solid { typ: t, name: "wall", color: rgb_spec(127, 127, 127) },
        SolidType::Ice => Solid {
            typ: t,
            name: "ice",
            color: blend_spec(white_spec(), background_spec(), 650),
        },
    }
}

pub open spec fn granular_spec(t: GranularType) -> Granular {
    match t {
        GranularType::Sand => Granular {
            typ: t,
            name: "sand",
            granularity_45: 100_000,
            granularity_90: 0,
            horizontal_spread: 50_000,
            spread_speed: 800_000,
            fall_speed: 1_000_000,
            color: rgb_spec(229, 229, 0),
        },
        GranularType::Dirt => Granular {
            typ: t,
            name: "dirt",
            granularity_45: 400_000,
            granularity_90: 0,
            horizontal_spread: 50_000,
            spread_speed: 800_000,
            fall_speed: 1_000_000,
            color: rgb_spec(76, 33, 0),
        },
        GranularType::Snow => Granular {
            typ: t,
            name: "snow",
            granularity_45: 1_000_000,
            granularity_90: 300_000,
            horizontal_spread: 50_000,
            spread_speed: 800_000,
            fall_speed: 1_000_000,
            color: rgb_spec(255, 255, 255),
        },
        GranularType::Nitro => Granular {
            typ: t,
            name: "nitro",
            granularity_45: 200_000,
            granularity_90: 0,
            horizontal_spread: 50_000,
            spread_speed: 800_000,
            fall_speed: 1_000_000,
            color: rgb_spec(25, 102, 12),
        },
    }
}

pub open spec fn fluid_spec(t: FluidType) -> Fluid {
    match t {
        FluidType::Water => Fluid {
            typ: t,
            name: "water",
            horizontal_spread: 50_000,
            fall_speed: 1_000_000,
            compressibility: 50_000,
            color: rgb_spec(0, 51, 255),
            density: 1_000_000,
            down_dir: down_dir(),
            up_dir: up_dir(),
        },
        FluidType::Oil => Fluid {
            typ: t,
            name: "oil",
            horizontal_spread: 50_000,
            fall_speed: 1_000_000,
            compressibility: 50_000,
            color: rgb_spec(127, 76, 0),
            density: 900_000,
            down_dir: down_dir(),
            up_dir: up_dir(),
        },
        FluidType::Methane => Fluid {
            typ: t,
            name: "methane",
            horizontal_spread: 50_000,
            fall_speed: 1_000_000,
            compressibility: 50_000,
            color: blend_spec(rgb_spec(38, 25, 25), background_spec(), 800),
            density: 500_000,
            down_dir: up_dir(),
            up_dir: down_dir(),
        },
        FluidType::Steam => Fluid {
            typ: t,
            name: "steam",
            horizontal_spread: 50_000,
            fall_speed: 1_000_000,
            compressibility: 50_000,
            color: blend_spec(
                blend_spec(rgb_spec(0, 51, 255), white_spec(), 600),
                background_spec(),
                700,
            ),
            density: 300_000,
            down_dir: up_dir(),
            up_dir: down_dir(),
        },
        FluidType::Cement => Fluid {
            typ: t,
            name: "cement",
            horizontal_spread: 10_000,
            fall_speed: 500_000,
            compressibility: 10_000,
            color: rgb_spec(76, 76, 76),
            density: 1_500_000,
            down_dir: down_dir(),
            up_dir: up_dir(),
        },
    }
}

/// What every fluid record satisfies: vertical unit directions that oppose
/// each other, a positive density and bounded coefficients.
pub open spec fn fluid_record_ok(f: Fluid) -> bool {
    &&& f.down_dir.x == 0 && f.up_dir.x == 0
    &&& (f.down_dir.y == 1 || f.down_dir.y == -1)
    &&& f.up_dir.y == -f.down_dir.y
    &&& 0 < f.density <= 2 * PROB_ONE
    &&& f.horizontal_spread <= PROB_ONE
    &&& f.fall_speed <= PROB_ONE
    &&& f.compressibility <= crate::mass::MASS_UNIT
}

pub proof fn lemma_fluid_records_ok(t: FluidType)
    ensures
        fluid_record_ok(fluid_spec(t)),
{
}

/// The parameters of a solid material.
pub fn solid_info(t: SolidType) -> (r: Solid)
    ensures
        r == solid_spec(t),
{
    match t {
        SolidType::Wall => Solid { typ: t, name: "wall", color: rgb(127, 127, 127) },
        SolidType::Ice => Solid { typ: t, name: "ice", color: blend(white(), background_color(), 650) },
    }
}

/// The parameters of a granular material.
pub fn granular_info(t: GranularType) -> (r: Granular)
    ensures
        r == granular_spec(t),
{
    match t {
        GranularType::Sand => Granular {
            typ: t,
            name: "sand",
            granularity_45: 100_000,
            granularity_90: 0,
            horizontal_spread: 50_000,
            spread_speed: 800_000,
            fall_speed: 1_000_000,
            color: rgb(229, 229, 0),
        },
        GranularType::Dirt => Granular {
            typ: t,
            name: "dirt",
            granularity_45: 400_000,
            granularity_90: 0,
            horizontal_spread: 50_000,
            spread_speed: 800_000,
            fall_speed: 1_000_000,
            color: rgb(76, 33, 0),
        },
        GranularType::Snow => Granular {
            typ: t,
            name: "snow",
            granularity_45: 1_000_000,
            granularity_90: 300_000,
            horizontal_spread: 50_000,
            spread_speed: 800_000,
            fall_speed: 1_000_000,
            color: rgb(255, 255, 255),
        },
        GranularType::Nitro => Granular {
            typ: t,
            name: "nitro",
            granularity_45: 200_000,
            granularity_90: 0,
            horizontal_spread: 50_000,
            spread_speed: 800_000,
            fall_speed: 1_000_000,
            color: rgb(25, 102, 12),
        },
    }
}

/// The parameters of a fluid material.
pub fn fluid_info(t: FluidType) -> (r: Fluid)
    ensures
        r == fluid_spec(t),
{
    let up = Pos { x: 0, y: -1 };
    let down = Pos { x: 0, y: 1 };
    match t {
        FluidType::Water => Fluid {
            typ: t,
            name: "water",
            horizontal_spread: 50_000,
            fall_speed: 1_000_000,
            compressibility: 50_000,
            color: rgb(0, 51, 255),
            density: 1_000_000,
            down_dir: down,
            up_dir: up,
        },
        FluidType::Oil => Fluid {
            typ: t,
            name: "oil",
            horizontal_spread: 50_000,
            fall_speed: 1_000_000,
            compressibility: 50_000,
            color: rgb(127, 76, 0),
            density: 900_000,
            down_dir: down,
            up_dir: up,
        },
        FluidType::Methane => Fluid {
            typ: t,
            name: "methane",
            horizontal_spread: 50_000,
            fall_speed: 1_000_000,
            compressibility: 50_000,
            color: blend(rgb(38, 25, 25), background_color(), 800),
            density: 500_000,
            down_dir: up,
            up_dir: down,
        },
        FluidType::Steam => Fluid {
            typ: t,
            name: "steam",
            horizontal_spread: 50_000,
            fall_speed: 1_000_000,
            compressibility: 50_000,
            color: blend(blend(rgb(0, 51, 255), white(), 600), background_color(), 700),
            density: 300_000,
            down_dir: up,
            up_dir: down,
        },
        FluidType::Cement => Fluid {
            typ: t,
            name: "cement",
            horizontal_spread: 10_000,
            fall_speed: 500_000,
            compressibility: 10_000,
            color: rgb(76, 76, 76),
            density: 1_500_000,
            down_dir: down,
            up_dir: up,
        },
    }
}

} // verus!
