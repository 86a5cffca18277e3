//! Materials: the cell type tagged union, the material parameter tables and
//! each material's display name and colour.
use vstd::prelude::*;
use crate::color::Rgb;
use crate::geometry::Pos;
use crate::mass::{MASS_UNIT, MAX_MASS};

verus! {

/// Probabilities and speed factors are written in millionths: this is 1.0.
pub const PROB_ONE: u32 = 1_000_000;

/// Ticks after a wire becomes an electron head until it is a plain wire again:
/// the head turns into a tail, which counts down to zero.
pub const TAIL_LIFETIME: i32 = 2;

/// Steps a freshly spawned virus cell lives.
pub const VIRUS_LIFETIME: i32 = 10;

/// Side of one cell on screen, in pixels.
pub const CELL_SIZE: usize = 5;

#[derive(Clone, Copy, Debug, PartialEq, Eq, Structural)]
pub enum SolidType {
    Wall,
    Ice,
}

#[derive(Clone, Copy, Debug, PartialEq, Eq, Structural)]
pub enum GranularType {
    Sand,
    Dirt,
    Snow,
    Nitro,
}

#[derive(Clone, Copy, Debug, PartialEq, Eq, Structural)]
pub enum FluidType {
    Water,
    Oil,
    Methane,
    Steam,
    Cement,
}

#[derive(Clone, Copy, Debug, PartialEq, Eq, Structural)]
pub enum WireType {
    Normal,
    Input,
    Output,
    Nor(bool),
    SignalEmitter,
}

/// What occupies a cell.
#[derive(Clone, Copy, Debug, PartialEq, Eq, Structural)]
pub enum CellType {
    Empty,
    Solid(SolidType),
    /// Kind, settled at 45 degrees, settled at 90 degrees.
    Granular(GranularType, bool, bool),
    /// Kind and mass, in units of `MASS_UNIT` per full cell.
    Fluid(FluidType, u64),
    WaterGenerator,
    SandGenerator,
    Destroyer,
    Plant,
    Fire,
    Torch,
    /// A shockwave fragment and the direction it travels in.
    ExplodingNitro(Pos),
    LifeOn,
    LifeTurningOn,
    Wire(WireType),
    ElectronHead(WireType),
    /// Wire kind and remaining lifetime.
    ElectronTail(WireType, i32),
    Eater,
    Fuse(bool),
    Virus(i32),
}

#[derive(Clone, Copy, Debug, PartialEq, Eq, Structural)]
pub struct Cell {
    pub typ: CellType,
}

/// Parameters of a solid material.
#[derive(Clone, Copy)]
pub struct Solid {
    pub typ: SolidType,
    pub name: &'static str,
    pub color: Rgb,
}

/// Parameters of a granular material; probabilities and speeds in millionths.
#[derive(Clone, Copy)]
pub struct Granular {
    pub typ: GranularType,
    pub name: &'static str,
    pub granularity_45: u32,
    pub granularity_90: u32,
    pub horizontal_spread: u32,
    pub spread_speed: u32,
    pub fall_speed: u32,
    pub color: Rgb,
}

/// Parameters of a fluid material; probabilities, speeds and density in
/// millionths, compressibility in mass units.
#[derive(Clone, Copy)]
pub struct Fluid {
    pub typ: FluidType,
    pub name: &'static str,
    pub horizontal_spread: u32,
    pub fall_speed: u32,
    pub compressibility: u64,
    pub color: Rgb,
    pub density: u32,
    /// The direction the fluid sinks in (up for fluids lighter than air).
    pub down_dir: Pos,
    pub up_dir: Pos,
}

impl CellType {
    /// The payload invariants of a cell value.
    pub open spec fn valid(self) -> bool {
        match self {
            CellType::Fluid(_, m) => m <= MAX_MASS,
            CellType::ExplodingNitro(d) => -1 <= d.x <= 1 && -1 <= d.y <= 1,
            CellType::ElectronTail(_, t) => t >= 1,
            _ => true,
        }
    }
}

pub open spec fn can_signal_spec(from: WireType, to: WireType) -> bool {
    match from {
        WireType::Output => to != WireType::Input,
        WireType::SignalEmitter => true,
        WireType::Input => to != WireType::SignalEmitter,
        WireType::Normal => to != WireType::SignalEmitter && to != WireType::Nor(true),
        WireType::Nor(latched) => (to is Nor) || (to == WireType::Output && !latched),
    }
}

pub open spec fn transition_spec(w: WireType) -> WireType {
    match w {
        WireType::Nor(_) => WireType::Nor(false),
        other => other,
    }
}

impl WireType {
    /// Whether an electron head on a wire of this kind excites a neighbouring
    /// wire of kind `out`.
    pub fn can_signal_to(self, out: WireType) -> (r: bool)
        ensures
            r == can_signal_spec(self, out),
    {
        match (self, out) {
            (WireType::Output, WireType::Input) => false,
            (WireType::Output, _) => true,
            (WireType::Input, WireType::Nor(_)) => true,
            (WireType::Nor(_), WireType::Nor(_)) => true,
            (WireType::Normal, WireType::Nor(false)) => true,
            (WireType::Nor(false), WireType::Output) => true,
            (WireType::Nor(true), WireType::Output) => false,
            (WireType::SignalEmitter, _) => true,
            (_, WireType::SignalEmitter) => false,
            (WireType::Nor(_), _) => false,
            (_, WireType::Nor(_)) => false,
            (_, _) => true,
        }
    }

    /// The kind a wire takes back once its electron tail has died out:
    /// a NOR wire loses its latch.
    pub fn transition_to(self) -> (r: WireType)
        ensures
            r == transition_spec(self),
    {
        match self {
            WireType::Nor(_) => WireType::Nor(false),
            x => x,
        }
    }
}

} // verus!
