//! Fixed-point fluid mass and the two-cell column split.
use vstd::prelude::*;

verus! {

/// Mass of one full cell of fluid, in fixed-point units.
pub const MASS_UNIT: u64 = 1_000_000;

/// Fluid cells holding at most this much mass are treated as evaporated.
pub const MIN_FLUID: u64 = 1_000;

/// The largest mass a single cell may hold.
pub const MAX_MASS: u64 = 1_000_000_000_000;

/// How much of `total` fluid settles in the lower cell of a two-cell column,
/// for a fluid with the given compressibility (both in fixed-point units).
pub open spec fn stable_state_spec(total: int, comp: int) -> int {
    let u = MASS_UNIT as int;
    if total <= u {
        total
    } else if total <= 2 * u + comp {
        (u * u + total * comp) / (u + comp)
    } else {
        (total + comp) / 2
    }
}

/// Gets the mass in the bottom cell of a two-cell fluid column holding `total_mass`.
pub fn stable_state(total_mass: u64, compressibility: u64) -> (r: u64)
    ensures
        r as int == stable_state_spec(total_mass as int, compressibility as int),
{
    let u: u128 = MASS_UNIT as u128;
    let m: u128 = total_mass as u128;
    let c: u128 = compressibility as u128;
    if m <= u {
        total_mass
    } else if m <= 2 * u + c {
        assert(m * c <= 0xffff_ffff_ffff_ffff * 0xffff_ffff_ffff_ffff) by (nonlinear_arith)
            requires m <= 0xffff_ffff_ffff_ffff, c <= 0xffff_ffff_ffff_ffff;
        let r: u128 = (u * u + m * c) / (u + c);
        assert(r <= m) by (nonlinear_arith)
            requires r == (u * u + m * c) / (u + c), u < m, u > 0;
        r as u64
    } else {
        ((m + c) / 2) as u64
    }
}

/// The lower cell never receives more than the column holds.
pub proof fn lemma_stable_state_le(m: int, c: int)
    requires
        m >= 0,
        c >= 0,
    ensures
        0 <= stable_state_spec(m, c) <= m,
{
    let u = MASS_UNIT as int;
    if u < m && m <= 2 * u + c {
        let r = (u * u + m * c) / (u + c);
        assert(0 <= r <= m) by (nonlinear_arith)
            requires r == (u * u + m * c) / (u + c), u < m, u > 0, c >= 0;
    }
}

/// A column holding more never puts less in its lower cell.
pub proof fn lemma_stable_state_monotonic(m1: int, m2: int, c: int)
    requires
        0 <= m1 <= m2,
        c >= 0,
    ensures
        stable_state_spec(m1, c) <= stable_state_spec(m2, c),
{
    let u = MASS_UNIT as int;
    let s1 = stable_state_spec(m1, c);
    let s2 = stable_state_spec(m2, c);
    // the middle piece at its two ends
    assert((u * u + u * c) / (u + c) == u) by (nonlinear_arith)
        requires u > 0, c >= 0;
    assert((u * u + (2 * u + c) * c) / (u + c) == u + c) by (nonlinear_arith)
        requires u > 0, c >= 0;
    if m2 <= u {
    } else if m2 <= 2 * u + c {
        if m1 <= u {
            assert(s2 >= u) by (nonlinear_arith)
                requires s2 == (u * u + m2 * c) / (u + c), m2 > u, u > 0, c >= 0;
        } else {
            assert(s1 <= s2) by (nonlinear_arith)
                requires
                    s1 == (u * u + m1 * c) / (u + c),
                    s2 == (u * u + m2 * c) / (u + c),
                    m1 <= m2,
                    u > 0,
                    c >= 0,
            {
                vstd::arithmetic::div_mod::lemma_div_is_ordered(u * u + m1 * c, u * u + m2 * c, u + c);
            }
        }
    } else {
        if m1 <= u {
        } else if m1 <= 2 * u + c {
            assert(s1 <= u + c) by (nonlinear_arith)
                requires s1 == (u * u + m1 * c) / (u + c), m1 <= 2 * u + c, u > 0, c >= 0
            {
                vstd::arithmetic::div_mod::lemma_div_is_ordered(u * u + m1 * c, u * u + (2 * u + c) * c, u + c);
            }
        } else {
        }
    }
}

/// What the upper cell keeps after the split never exceeds `MAX_MASS` when the
/// column holds at most two full cells' worth of it.
pub proof fn lemma_stable_state_rest(m: int, c: int)
    requires
        0 <= m <= 2 * MAX_MASS,
        0 <= c <= MASS_UNIT,
    ensures
        m - stable_state_spec(m, c) <= MAX_MASS,
{
    let u = MASS_UNIT as int;
    if u < m && m <= 2 * u + c {
        assert((u * u + m * c) / (u + c) >= u) by (nonlinear_arith)
            requires m > u, u > 0, c >= 0;
    }
}

/// The split at its boundaries: half a cell and one cell stay low whole; two
/// cells of an incompressible fluid split one and one; past two cells plus the
/// compressibility the lower cell takes half the total plus half the
/// compressibility.
pub proof fn lemma_stable_state_boundaries(c: int)
    requires
        c >= 0,
    ensures
        stable_state_spec(MASS_UNIT as int / 2, c) == MASS_UNIT as int / 2,
        stable_state_spec(MASS_UNIT as int, c) == MASS_UNIT as int,
        stable_state_spec(2 * MASS_UNIT as int, 0) == MASS_UNIT as int,
        forall|m: int| m > 2 * MASS_UNIT + c ==> #[trigger] stable_state_spec(m, c) == (m + c) / 2,
{
    let u = MASS_UNIT as int;
    assert((u * u + 2 * u * 0) / (u + 0) == u) by (nonlinear_arith)
        requires u > 0;
}

} // verus!
