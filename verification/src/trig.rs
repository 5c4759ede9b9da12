//! Fixed-point angles and trusted trigonometry.
//!
//! Coordinates and angles are signed 64-bit fixed-point numbers with 32
//! fractional bits, the layout of `fixed::types::I32F32`.  The sine and
//! cosine of an angle are computed by the `cordic` crate; the library treats
//! their values as opaque functions of the angle bits.

use vstd::prelude::*;
use vstd::arithmetic::div_mod::lemma_multiply_divide_lt;

verus! {

/// The fixed-point value 1.0: coordinates are stored as multiples of
/// `1 / FP_ONE`.
pub const FP_ONE: i64 = 0x1_0000_0000;

/// A full turn (2 * pi) in fixed-point radians, rounded down.
pub const TURN_FP: u64 = 26986075409;

/// A quarter turn (pi / 2) in fixed-point radians, rounded down.
pub const QUARTER_TURN_FP: u64 = 6746518852;

/// The fixed-point cosine that `cordic::cos` computes for an angle with the
/// `I32F32` bit layout.  Its exact value is left opaque; it depends on the
/// angle bits alone.
pub uninterp spec fn cos_fp(angle: int) -> int;

/// The fixed-point sine that `cordic::sin` computes for an angle with the
/// `I32F32` bit layout.  Its exact value is left opaque; it depends on the
/// angle bits alone.
pub uninterp spec fn sin_fp(angle: int) -> int;

/// Relies on `cordic::cos` over `fixed::types::I32F32`: a deterministic
/// function of the angle bits.  The angle is kept inside one turn so that the
/// crate's internal range reduction cannot overflow.
#[verifier::external_body]
pub(crate) fn cos_fixed(angle: i64) -> (r: i64)
    requires
        0 <= angle < TURN_FP,
    ensures
        r == cos_fp(angle as int),
{
    cordic::cos(fixed::types::I32F32::from_bits(angle)).to_bits()
}

/// Relies on `cordic::sin` over `fixed::types::I32F32`: a deterministic
/// function of the angle bits.  The angle is kept inside one turn so that the
/// crate's internal range reduction cannot overflow.
#[verifier::external_body]
pub(crate) fn sin_fixed(angle: i64) -> (r: i64)
    requires
        0 <= angle < TURN_FP,
    ensures
        r == sin_fp(angle as int),
{
    cordic::sin(fixed::types::I32F32::from_bits(angle)).to_bits()
}

/// The fixed-point angle of vertex `k` of a regular `n`-gon: `2*pi*k/n`
/// offset by a quarter turn so that vertex 0 points straight up, reduced to
/// `[0, 2*pi)`.
pub open spec fn vertex_angle(k: int, n: int) -> int {
    let raw = (TURN_FP * k) / n + QUARTER_TURN_FP;
    if raw >= TURN_FP {
        raw - TURN_FP
    } else {
        raw
    }
}

/// Computes `vertex_angle(k, n)` exactly.
pub fn vertex_angle_fixed(k: usize, n: usize) -> (a: i64)
    requires
        0 < n,
        k < n,
    ensures
        a == vertex_angle(k as int, n as int),
        0 <= a < TURN_FP,
{
    let slice: u128 = (TURN_FP as u128 * k as u128) / (n as u128);
    proof {
        assert(TURN_FP * k < (n as int) * TURN_FP) by (nonlinear_arith)
            requires
                0 <= k < n,
        ;
        lemma_multiply_divide_lt(TURN_FP * k, n as int, TURN_FP as int);
    }
    let raw: u128 = slice + QUARTER_TURN_FP as u128;
    let reduced: u128 = if raw >= TURN_FP as u128 {
        raw - TURN_FP as u128
    } else {
        raw
    };
    reduced as i64
}

} // verus!
