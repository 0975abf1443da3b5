//! Calibrated magnitude of a reading.
//!
//! The physical field strength of a reading is the Euclidean norm of the
//! gain-normalized axes, `sqrt((x / XY_GAIN)^2 + (y / XY_GAIN)^2 +
//! (z / Z_GAIN)^2)` gauss.  To keep the computation exact, the library
//! multiplies that norm by `XY_GAIN * Z_GAIN` and works on the resulting
//! integer: `field_sum` is the square of the scaled norm, `magnitude_scaled`
//! its integer square root, and `magnitude` the norm in whole milligauss.

use crate::measurement::RawMeasurement;
use vstd::prelude::*;

verus! {

/// Calibration gain of the two horizontal axes, in sensor counts per gauss.
pub const XY_GAIN: u32 = 1100;

/// Calibration gain of the vertical axis, in sensor counts per gauss.
pub const Z_GAIN: u32 = 980;

/// Scaled-norm units per milligauss: the scaled norm measures
/// `XY_GAIN * Z_GAIN` units per gauss, so one thousandth of that per
/// milligauss.
pub const UNITS_PER_MILLIGAUSS: u32 = 1078;

/// The square of the field norm scaled by `XY_GAIN * Z_GAIN`: multiplying
/// `(x / XY_GAIN)^2 + (y / XY_GAIN)^2 + (z / Z_GAIN)^2` by
/// `(XY_GAIN * Z_GAIN)^2` clears both denominators.
pub open spec fn field_sum(x: int, y: int, z: int) -> int {
    (x * x + y * y) * ((Z_GAIN * Z_GAIN) as int) + z * z * ((XY_GAIN * XY_GAIN) as int)
}

/// `r` is the integer square root of `n`: the largest integer whose square
/// does not exceed `n`.
pub open spec fn is_isqrt(n: int, r: int) -> bool {
    0 <= r && r * r <= n < (r + 1) * (r + 1)
}

/// The largest `u64` whose square does not exceed `n`.
fn isqrt(n: u64) -> (r: u64)
    ensures
        is_isqrt(n as int, r as int),
{
    let mut lo: u64 = 0;
    let mut hi: u64 = 0x1_0000_0000;
    while hi - lo > 1
        invariant
            lo < hi <= 0x1_0000_0000,
            (lo * lo) as int <= n as int,
            (n as int) < (hi as int) * (hi as int),
        decreases hi - lo,
    {
        let mid = lo + (hi - lo) / 2;
        proof {
            assert((mid as int) * (mid as int) < 0x1_0000_0000_0000_0000) by (nonlinear_arith)
                requires
                    0 <= mid < 0x1_0000_0000,
            ;
        }
        if mid * mid <= n {
            lo = mid;
        } else {
            hi = mid;
        }
    }
    lo
}

/// The field norm scaled by `XY_GAIN * Z_GAIN`: the integer square root of
/// `field_sum`.  Exact on every representable reading; zero exactly on the
/// zero reading.
pub fn magnitude_scaled(reading: &RawMeasurement) -> (m: u32)
    ensures
        is_isqrt(field_sum(reading.x as int, reading.y as int, reading.z as int), m as int),
{
    let x = reading.x as i64;
    let y = reading.y as i64;
    let z = reading.z as i64;
    proof {
        assert(0 <= x * x <= 0x4000_0000 && 0 <= y * y <= 0x4000_0000 && 0 <= z * z
            <= 0x4000_0000) by (nonlinear_arith)
            requires
                -0x8000 <= x <= 0x7fff,
                -0x8000 <= y <= 0x7fff,
                -0x8000 <= z <= 0x7fff,
        ;
    }
    let horizontal = x * x + y * y;
    let vertical = z * z;
    let total: i64 = horizontal * 960_400 + vertical * 1_210_000;
    proof {
        assert((Z_GAIN * Z_GAIN) as int == 960_400);
        assert((XY_GAIN * XY_GAIN) as int == 1_210_000);
    }
    let sum = total as u64;
    let root = isqrt(sum);
    proof {
        assert(root < 0x1_0000_0000) by (nonlinear_arith)
            requires
                (root as int) * (root as int) <= (sum as int),
                (sum as int) < 0x1_0000_0000_0000_0000,
        ;
    }
    root as u32
}

/// The field norm of a reading in whole milligauss, rounded to the nearest
/// milligauss with ties rounded up.  The result `m` is the unique integer
/// whose milligauss band holds the scaled norm:
/// `(m * UNITS_PER_MILLIGAUSS - 539)^2 <= field_sum <
/// (m * UNITS_PER_MILLIGAUSS + 539)^2`, with no lower bound for `m == 0`.
/// Rounding to nearest keeps every nonzero reading above zero: one sensor
/// count on any axis already clears the half-milligauss threshold.
pub fn magnitude(reading: &RawMeasurement) -> (m: u32)
    ensures
        ({
            let s = field_sum(reading.x as int, reading.y as int, reading.z as int);
            let u = UNITS_PER_MILLIGAUSS as int;
            &&& s < (m * u + u / 2) * (m * u + u / 2)
            &&& m >= 1 ==> (m * u - u / 2) * (m * u - u / 2) <= s
        }),
{
    let root = magnitude_scaled(reading);
    let half = (UNITS_PER_MILLIGAUSS / 2) as u64;
    let wide = ((root as u64) + half) / (UNITS_PER_MILLIGAUSS as u64);
    let m = wide as u32;
    proof {
        let s = field_sum(reading.x as int, reading.y as int, reading.z as int);
        assert(UNITS_PER_MILLIGAUSS as int == 1078);
        assert(1078 * wide <= root + 539 < 1078 * (wide + 1));
        assert(s < ((m as int) * 1078 + 539) * ((m as int) * 1078 + 539)) by (nonlinear_arith)
            requires
                0 <= root,
                (root as int) + 1 <= (m as int) * 1078 + 539,
                s < ((root as int) + 1) * ((root as int) + 1),
        ;
        if m >= 1 {
            assert(((m as int) * 1078 - 539) * ((m as int) * 1078 - 539) <= s)
                by (nonlinear_arith)
                requires
                    0 <= (m as int) * 1078 - 539 <= root,
                    (root as int) * (root as int) <= s,
            ;
        }
    }
    m
}

/// Scaling a reading uniformly by `k` scales `field_sum` by `k * k`.
proof fn lemma_field_sum_scales(x: int, y: int, z: int, k: int)
    ensures
        field_sum(k * x, k * y, k * z) == (k * k) * field_sum(x, y, z),
{
    let a = x * x;
    let b = y * y;
    let c = z * z;
    let kk = k * k;
    let g = (Z_GAIN * Z_GAIN) as int;
    let h = (XY_GAIN * XY_GAIN) as int;
    assert((k * x) * (k * x) == kk * a) by (nonlinear_arith)
        requires
            kk == k * k,
            a == x * x,
    ;
    assert((k * y) * (k * y) == kk * b) by (nonlinear_arith)
        requires
            kk == k * k,
            b == y * y,
    ;
    assert((k * z) * (k * z) == kk * c) by (nonlinear_arith)
        requires
            kk == k * k,
            c == z * z,
    ;
    assert((kk * a + kk * b) * g + (kk * c) * h == kk * ((a + b) * g + c * h))
        by (nonlinear_arith);
    assert(field_sum(k * x, k * y, k * z) == (kk * a + kk * b) * g + (kk * c) * h);
    assert(field_sum(x, y, z) == (a + b) * g + c * h);
}

/// The magnitude is non-negative and vanishes exactly on the zero reading:
/// the scaled norm of `(x, y, z)` is zero if and only if all three axes
/// read zero.
pub proof fn lemma_magnitude_zero(x: int, y: int, z: int, m: int)
    requires
        is_isqrt(field_sum(x, y, z), m),
    ensures
        m >= 0,
        m == 0 <==> x == 0 && y == 0 && z == 0,
{
    let s = field_sum(x, y, z);
    assert((Z_GAIN * Z_GAIN) as int == 960_400);
    assert((XY_GAIN * XY_GAIN) as int == 1_210_000);
    if x == 0 && y == 0 && z == 0 {
        assert(s == 0);
        assert(m == 0) by (nonlinear_arith)
            requires
                0 <= m,
                m * m <= 0,
        ;
    }
    if m == 0 {
        assert(s < (m + 1) * (m + 1));
        assert(s < 1) by (nonlinear_arith)
            requires
                m == 0,
                s < (m + 1) * (m + 1),
        ;
        assert(x == 0 && y == 0 && z == 0) by (nonlinear_arith)
            requires
                s == (x * x + y * y) * 960_400 + z * z * 1_210_000,
                s < 1,
        ;
    }
}

/// The milligauss magnitude also vanishes exactly on the zero reading: a
/// single sensor count on any axis already scores at least `Z_GAIN^2` in
/// `field_sum`, which lies above the half-milligauss rounding threshold, so
/// rounding to the nearest milligauss maps exactly the zero reading to zero.
pub proof fn lemma_milligauss_zero(x: int, y: int, z: int, m: int)
    requires
        0 <= m,
        field_sum(x, y, z) < (m * (UNITS_PER_MILLIGAUSS as int) + (UNITS_PER_MILLIGAUSS as int)
            / 2) * (m * (UNITS_PER_MILLIGAUSS as int) + (UNITS_PER_MILLIGAUSS as int) / 2),
        m >= 1 ==> (m * (UNITS_PER_MILLIGAUSS as int) - (UNITS_PER_MILLIGAUSS as int) / 2) * (m
            * (UNITS_PER_MILLIGAUSS as int) - (UNITS_PER_MILLIGAUSS as int) / 2) <= field_sum(
            x,
            y,
            z,
        ),
    ensures
        m == 0 <==> x == 0 && y == 0 && z == 0,
{
    let s = field_sum(x, y, z);
    let u = UNITS_PER_MILLIGAUSS as int;
    assert(u == 1078 && u / 2 == 539);
    assert((Z_GAIN * Z_GAIN) as int == 960_400);
    assert((XY_GAIN * XY_GAIN) as int == 1_210_000);
    if x == 0 && y == 0 && z == 0 {
        assert(s == 0);
        if m >= 1 {
            assert(false) by (nonlinear_arith)
                requires
                    m >= 1,
                    (m * 1078 - 539) * (m * 1078 - 539) <= 0,
            ;
        }
    }
    if m == 0 {
        assert(s < 539 * 539);
        assert(x == 0 && y == 0 && z == 0) by (nonlinear_arith)
            requires
                s == (x * x + y * y) * 960_400 + z * z * 1_210_000,
                s < 539 * 539,
        ;
    }
}

/// Scaling invariance: multiplying every axis of a reading by the same
/// positive factor `k` multiplies the scaled norm by `k`, up to the
/// rounding of the integer square root.
pub proof fn lemma_magnitude_scaling(x: int, y: int, z: int, k: int, m: int, mk: int)
    requires
        k >= 1,
        is_isqrt(field_sum(x, y, z), m),
        is_isqrt(field_sum(k * x, k * y, k * z), mk),
    ensures
        k * m <= mk < k * (m + 1),
{
    let s = field_sum(x, y, z);
    let sk = field_sum(k * x, k * y, k * z);
    lemma_field_sum_scales(x, y, z, k);
    assert(k * m <= mk) by (nonlinear_arith)
        requires
            k >= 1,
            0 <= m,
            0 <= mk,
            m * m <= s,
            sk == (k * k) * s,
            sk < (mk + 1) * (mk + 1),
    ;
    assert(mk < k * (m + 1)) by (nonlinear_arith)
        requires
            k >= 1,
            0 <= m,
            0 <= mk,
            s < (m + 1) * (m + 1),
            sk == (k * k) * s,
            mk * mk <= sk,
    ;
}

} // verus!
