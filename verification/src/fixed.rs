//! Fixed-point arithmetic for the raycaster.
//!
//! Positions and distances are measured in millionths of a grid cell
//! (`POS_ONE` units per cell). Headings are measured in millidegrees
//! (`FULL_TURN` per revolution). The sine is the classical rational
//! approximation `sin x ~= 4x(180 - x) / (40500 - x(180 - x))` (x in
//! degrees), evaluated exactly over the integers and scaled by `FRAC_ONE`;
//! it is exact at 0, 30, 90, 150 and 180 degrees and everywhere within a
//! few parts per thousand, which is the library's definition of heading
//! trigonometry.

use vstd::prelude::*;

verus! {

use vstd::arithmetic::div_mod::lemma_fundamental_div_mod;
use vstd::arithmetic::div_mod::lemma_fundamental_div_mod_converse_div;
use vstd::arithmetic::div_mod::lemma_multiply_divide_le;

/// Position units in one grid cell.
pub const POS_ONE: i64 = 1_000_000;

/// Scale of trigonometric fractions: `FRAC_ONE` stands for 1.0.
pub const FRAC_ONE: i64 = 1_000_000;

/// Millidegrees in a full revolution.
pub const FULL_TURN: i64 = 360_000;

/// Millidegrees in half a revolution.
pub const HALF_TURN: i64 = 180_000;

/// Millidegrees in a quarter revolution.
pub const QUARTER_TURN: i64 = 90_000;

/// A heading reduced to one revolution, as the mathematical (Euclidean)
/// remainder, so it always lands in `[0, FULL_TURN)`.
pub open spec fn norm_md(a: int) -> int {
    a % (FULL_TURN as int)
}

/// The rational sine on a half revolution: for `r` in `[0, HALF_TURN]`,
/// `4 r (HALF_TURN - r) FRAC_ONE / (40500e6 - r (HALF_TURN - r))`.
pub open spec fn sin_arch(r: int) -> int {
    let p = r * (180_000 - r);
    4 * p * 1_000_000 / (40_500_000_000 - p)
}

/// Sine of a heading in millidegrees, scaled by `FRAC_ONE`.
pub open spec fn sin_md(a: int) -> int {
    let r = norm_md(a);
    if r <= HALF_TURN {
        sin_arch(r)
    } else {
        -sin_arch(r - HALF_TURN)
    }
}

/// Cosine of a heading in millidegrees, scaled by `FRAC_ONE`.
pub open spec fn cos_md(a: int) -> int {
    sin_md(a + QUARTER_TURN)
}

/// Floor division by a positive divisor, on possibly negative numerators.
/// This is the rounding used throughout the model: it matches the
/// mathematical `/` of the specifications.
pub fn div_floor(a: i64, b: i64) -> (q: i64)
    requires
        1 <= b,
        -0x4000_0000_0000_0000 <= a <= 0x4000_0000_0000_0000,
    ensures
        q == a as int / b as int,
{
    if a >= 0 {
        let qu: u64 = (a as u64) / (b as u64);
        proof {
            assert(a as u64 == a as int);
            assert(b as u64 == b as int);
            vstd::arithmetic::div_mod::lemma_div_nonincreasing(a as int, b as int);
            vstd::arithmetic::div_mod::lemma_div_pos_is_pos(a as int, b as int);
        }
        qu as i64
    } else {
        let na: u64 = (-a) as u64;
        let bu: u64 = b as u64;
        let q0: u64 = na / bu;
        let r0: u64 = na % bu;
        proof {
            vstd::arithmetic::div_mod::lemma_div_nonincreasing(na as int, bu as int);
            vstd::arithmetic::div_mod::lemma_div_pos_is_pos(na as int, bu as int);
            lemma_fundamental_div_mod(na as int, bu as int);
            if r0 == 0 {
                assert(a as int == (-(q0 as int)) * (b as int) + 0) by (nonlinear_arith)
                    requires
                        na as int == (bu as int) * (q0 as int) + (r0 as int),
                        r0 == 0,
                        a as int == -(na as int),
                        bu as int == b as int,
                ;
                lemma_fundamental_div_mod_converse_div(a as int, b as int, -(q0 as int), 0);
            } else {
                assert(a as int == (-(q0 as int) - 1) * (b as int) + ((b as int) - (r0 as int)))
                    by (nonlinear_arith)
                    requires
                        na as int == (bu as int) * (q0 as int) + (r0 as int),
                        a as int == -(na as int),
                        bu as int == b as int,
                ;
                lemma_fundamental_div_mod_converse_div(
                    a as int,
                    b as int,
                    -(q0 as int) - 1,
                    (b as int) - (r0 as int),
                );
            }
        }
        if r0 == 0 {
            -(q0 as i64)
        } else {
            -(q0 as i64) - 1
        }
    }
}

/// A heading of either sign reduced to `[0, FULL_TURN)`.
pub fn norm_turn(a: i64) -> (r: i64)
    requires
        -0x2000_0000_0000_0000 <= a <= 0x2000_0000_0000_0000,
    ensures
        r == norm_md(a as int),
        0 <= r < FULL_TURN,
{
    let q: i64 = div_floor(a, FULL_TURN);
    proof {
        lemma_fundamental_div_mod(a as int, FULL_TURN as int);
        vstd::arithmetic::div_mod::lemma_mod_division_less_than_divisor(a as int, FULL_TURN as int);
        assert((FULL_TURN as int) * (q as int) == (q as int) * (FULL_TURN as int))
            by (nonlinear_arith);
    }
    a - q * FULL_TURN
}

/// The rational sine on `[0, HALF_TURN]`, scaled by `FRAC_ONE`.
fn sin_arch_fp(r: i64) -> (s: i64)
    requires
        0 <= r <= 180_000,
    ensures
        s == sin_arch(r as int),
        0 <= s <= FRAC_ONE,
{
    proof {
        assert(0 <= r * (180_000 - r) <= 8_100_000_000) by (nonlinear_arith)
            requires
                0 <= r <= 180_000,
        ;
    }
    let p: i64 = r * (180_000 - r);
    let num: i64 = 4 * p * 1_000_000;
    let den: i64 = 40_500_000_000 - p;
    let q: u64 = (num as u64) / (den as u64);
    proof {
        assert(num as int <= (den as int) * 1_000_000);
        lemma_multiply_divide_le(num as int, den as int, 1_000_000);
        vstd::arithmetic::div_mod::lemma_div_pos_is_pos(num as int, den as int);
    }
    q as i64
}

/// Sine of a heading in millidegrees, scaled by `FRAC_ONE`.
pub fn sin_mfp(a: i64) -> (s: i64)
    requires
        -0x2000_0000_0000_0000 <= a <= 0x2000_0000_0000_0000,
    ensures
        s == sin_md(a as int),
        -FRAC_ONE <= s <= FRAC_ONE,
{
    let m: i64 = norm_turn(a);
    if m <= HALF_TURN {
        sin_arch_fp(m)
    } else {
        -sin_arch_fp(m - HALF_TURN)
    }
}

/// Cosine of a heading in millidegrees, scaled by `FRAC_ONE`.
pub fn cos_mfp(a: i64) -> (s: i64)
    requires
        -0x2000_0000_0000_0000 <= a <= 0x2000_0000_0000_0000 - QUARTER_TURN,
    ensures
        s == cos_md(a as int),
        -FRAC_ONE <= s <= FRAC_ONE,
{
    sin_mfp(a + QUARTER_TURN)
}

} // verus!
