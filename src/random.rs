//! The simulation's random source: rand's standard generator behind a few
//! trusted calls.
use vstd::prelude::*;
use rand::rngs::StdRng;
use crate::geometry::Pos;
use crate::material::PROB_ONE;

verus! {

#[verifier::external_type_specification]
#[verifier::external_body]
pub struct ExStdRng(rand::rngs::StdRng);

/// Relies on rand::Rng::gen_range: a draw from the half-open range
/// `0..PROB_ONE` lies in that range.
#[verifier::external_body]
fn roll(rng: &mut StdRng) -> (r: u32)
    ensures
        r < PROB_ONE,
{
    rand::Rng::gen_range(rng, 0..PROB_ONE)
}

pub open spec fn falls_below(draw: u32, p: u32) -> bool {
    draw < p
}

/// Whether a draw from `0..PROB_ONE` falls below `p` millionths.
pub fn below(draw: u32, p: u32) -> (r: bool)
    ensures
        r == falls_below(draw, p),
{
    draw < p
}

/// True with probability `p` millionths: a certain event for `p >= PROB_ONE`,
/// an impossible one for `p == 0`.
pub fn chance(rng: &mut StdRng, p: u32) -> (r: bool)
    ensures
        p == 0 ==> !r,
        p >= PROB_ONE ==> r,
        exists|draw: u32| draw < PROB_ONE && r == #[trigger] falls_below(draw, p),
{
    let draw = roll(rng);
    below(draw, p)
}

pub open spec fn is_cardinal(d: Pos) -> bool {
    (d.x == 0 && (d.y == 1 || d.y == -1)) || (d.y == 0 && (d.x == 1 || d.x == -1))
}

/// The side neighbour offset that a draw from `0..PROB_ONE` picks: each
/// quarter of the range picks one of right, left, down and up.
pub fn cardinal_of(draw: u32) -> (d: Pos)
    ensures
        is_cardinal(d),
        d == cardinal_of_spec(draw),
{
    if draw < 250_000 {
        Pos { x: 1, y: 0 }
    } else if draw < 500_000 {
        Pos { x: -1, y: 0 }
    } else if draw < 750_000 {
        Pos { x: 0, y: 1 }
    } else {
        Pos { x: 0, y: -1i32 }
    }
}

/// One of the four side neighbours' offsets, each with probability 1/4.
pub fn random_cardinal(rng: &mut StdRng) -> (d: Pos)
    ensures
        is_cardinal(d),
        exists|draw: u32| draw < PROB_ONE && d == #[trigger] cardinal_of_spec(draw),
{
    let draw = roll(rng);
    cardinal_of(draw)
}

pub open spec fn cardinal_of_spec(draw: u32) -> Pos {
    if draw < 250_000 {
        Pos { x: 1, y: 0 }
    } else if draw < 500_000 {
        Pos { x: -1i32, y: 0 }
    } else if draw < 750_000 {
        Pos { x: 0, y: 1 }
    } else {
        Pos { x: 0, y: -1i32 }
    }
}

/// Relies on rand::seq::SliceRandom::shuffle: it reorders the slice in place
/// by swaps, so the result is a permutation of the input.
#[verifier::external_body]
pub(crate) fn shuffle_positions(v: &mut Vec<Pos>, rng: &mut StdRng)
    ensures
        final(v)@.len() == old(v)@.len(),
        final(v)@.to_multiset() == old(v)@.to_multiset(),
{
    rand::seq::SliceRandom::shuffle(v.as_mut_slice(), rng)
}

} // verus!
