//! Display colours.
use vstd::prelude::*;

verus! {

/// An 8-bit-per-channel colour.
#[derive(Clone, Copy, Debug, PartialEq, Eq, Structural)]
pub struct Rgb {
    pub r: u8,
    pub g: u8,
    pub b: u8,
}

/// Blend weights are written in thousandths: this is a weight of 1.0.
pub const BLEND_ONE: u32 = 1000;

pub open spec fn mix_spec(x: u8, y: u8, t: u32) -> u8 {
    ((x * t + y * (BLEND_ONE - t)) / BLEND_ONE as int) as u8
}

/// `a` weighted by `t` thousandths, `b` by the rest.
pub open spec fn blend_spec(a: Rgb, b: Rgb, t: u32) -> Rgb {
    Rgb { r: mix_spec(a.r, b.r, t), g: mix_spec(a.g, b.g, t), b: mix_spec(a.b, b.b, t) }
}

pub open spec fn rgb_spec(r: u8, g: u8, b: u8) -> Rgb {
    Rgb { r, g, b }
}

fn mix(x: u8, y: u8, t: u32) -> (r: u8)
    requires
        t <= BLEND_ONE,
    ensures
        r == mix_spec(x, y, t),
        r as int == (x * t + y * (BLEND_ONE - t)) / BLEND_ONE as int,
{
    assert(x * t <= 255 * 1000 && y * (1000 - t) <= 255 * 1000) by (nonlinear_arith)
        requires x <= 255, y <= 255, t <= 1000;
    let xt: u32 = x as u32 * t;
    let yt: u32 = y as u32 * (BLEND_ONE - t);
    assert(xt + yt <= 255 * 1000) by (nonlinear_arith)
        requires xt == x * t, yt == y * (1000 - t), x <= 255, y <= 255, t <= 1000;
    ((xt + yt) / BLEND_ONE) as u8
}

/// Linear interpolation between two colours: `a` weighted by `t` thousandths.
pub fn blend(a: Rgb, b: Rgb, t: u32) -> (r: Rgb)
    requires
        t <= BLEND_ONE,
    ensures
        r == blend_spec(a, b, t),
{
    Rgb { r: mix(a.r, b.r, t), g: mix(a.g, b.g, t), b: mix(a.b, b.b, t) }
}

pub fn rgb(r: u8, g: u8, b: u8) -> (c: Rgb)
    ensures
        c == rgb_spec(r, g, b),
{
    Rgb { r, g, b }
}

pub open spec fn background_spec() -> Rgb {
    rgb_spec(95, 188, 223)
}

pub open spec fn white_spec() -> Rgb {
    rgb_spec(255, 255, 255)
}

/// The colour of empty space.
pub fn background_color() -> (c: Rgb)
    ensures
        c == background_spec(),
{
    rgb(95, 188, 223)
}

pub fn white() -> (c: Rgb)
    ensures
        c == white_spec(),
{
    rgb(255, 255, 255)
}

} // verus!
