//! Fixed-point representation of a bearing angle.
//!
//! An angle is stored in scaled units of `pi / PI_UNITS` radians, so one
//! half turn (`pi`) is exactly `PI_UNITS` units and the eight sector
//! boundaries at odd multiples of `pi / 8` are exact integers.  A valid
//! bearing always lies in the half-open interval `(-PI_UNITS, PI_UNITS]`,
//! the scaled image of `(-pi, pi]`.

use vstd::arithmetic::div_mod::{
    lemma_mod_add_multiples_vanish, lemma_mod_division_less_than_divisor,
    lemma_mod_sub_multiples_vanish, lemma_small_mod,
};
use vstd::prelude::*;

verus! {

/// One half turn (`pi` radians) in scaled angle units.
pub const PI_UNITS: i32 = 8_000_000;

/// One full turn (`2 * pi` radians) in scaled angle units.
pub const FULL_TURN: i32 = 16_000_000;

/// The width of one compass sector (`pi / 4` radians) in scaled angle units.
pub const SECTOR_WIDTH: i32 = 2_000_000;

/// Half of one sector (`pi / 8` radians): the sector boundaries lie at odd
/// multiples of this value.
pub const SECTOR_HALF_WIDTH: i32 = 1_000_000;

/// The unique representative of `raw` in `(-PI_UNITS, PI_UNITS]` that is
/// congruent to `raw` modulo one full turn.
pub open spec fn wrapped(raw: int) -> int {
    let m = raw % (FULL_TURN as int);
    if m > PI_UNITS { m - FULL_TURN } else { m }
}

/// `wrapped` always lands in the valid angle interval.
pub proof fn lemma_wrapped_range(raw: int)
    ensures
        -PI_UNITS < wrapped(raw) <= PI_UNITS,
{
    lemma_mod_division_less_than_divisor(raw, FULL_TURN as int);
}

/// `wrapped` keeps the angle class: the result is congruent to the input
/// modulo one full turn.
pub proof fn lemma_wrapped_congruent(raw: int)
    ensures
        wrapped(raw) % (FULL_TURN as int) == raw % (FULL_TURN as int),
{
    let m = raw % (FULL_TURN as int);
    lemma_mod_division_less_than_divisor(raw, FULL_TURN as int);
    if m > PI_UNITS {
        lemma_mod_sub_multiples_vanish(m, FULL_TURN as int);
        lemma_small_mod(m as nat, FULL_TURN as nat);
    } else {
        lemma_small_mod(m as nat, FULL_TURN as nat);
    }
}

/// On angles that are already in the valid interval, `wrapped` is the
/// identity.
pub proof fn lemma_wrapped_identity(t: int)
    requires
        -PI_UNITS < t <= PI_UNITS,
    ensures
        wrapped(t) == t,
{
    if t >= 0 {
        lemma_small_mod(t as nat, FULL_TURN as nat);
    } else {
        lemma_mod_add_multiples_vanish(t, FULL_TURN as int);
        lemma_small_mod((t + FULL_TURN) as nat, FULL_TURN as nat);
    }
}

/// A bearing angle in scaled units, kept in `(-PI_UNITS, PI_UNITS]`.
#[derive(Clone, Copy, Debug, PartialEq, Eq, Structural)]
pub struct Bearing {
    theta: i32,
}

impl Bearing {
    #[verifier::type_invariant]
    spec fn wf(self) -> bool {
        -PI_UNITS < self.theta <= PI_UNITS
    }

    /// The angle held by this bearing, in scaled units.
    pub closed spec fn angle(self) -> int {
        self.theta as int
    }

    /// The angle in scaled units, as an executable value.
    pub fn theta_scaled(&self) -> (t: i32)
        ensures
            t == self.angle(),
            -PI_UNITS < t <= PI_UNITS,
    {
        proof {
            use_type_invariant(self);
        }
        self.theta
    }

    /// Builds the bearing for `raw` scaled units, reducing the angle modulo
    /// one full turn into `(-PI_UNITS, PI_UNITS]`.
    pub fn from_scaled(raw: i64) -> (b: Bearing)
        ensures
            b.angle() == wrapped(raw as int),
    {
        let mut t: i64 = raw;
        while t > PI_UNITS as i64
            invariant
                wrapped(t as int) == wrapped(raw as int),
            decreases t + PI_UNITS,
        {
            proof {
                lemma_mod_sub_multiples_vanish(t as int, FULL_TURN as int);
            }
            t = t - FULL_TURN as i64;
        }
        while t <= -(PI_UNITS as i64)
            invariant
                t <= PI_UNITS as i64,
                wrapped(t as int) == wrapped(raw as int),
            decreases PI_UNITS - t,
        {
            proof {
                lemma_mod_add_multiples_vanish(t as int, FULL_TURN as int);
            }
            t = t + FULL_TURN as i64;
        }
        proof {
            lemma_wrapped_identity(t as int);
        }
        Bearing { theta: t as i32 }
    }

    /// Turns the bearing by `steps` whole sectors (`steps * pi / 4` radians),
    /// wrapping around the full turn.
    pub fn rotate(self, steps: i32) -> (b: Bearing)
        ensures
            b.angle() == wrapped(self.angle() + steps * (SECTOR_WIDTH as int)),
    {
        proof {
            use_type_invariant(self);
            assert((steps as int) * (SECTOR_WIDTH as int) == (steps as int) * 2_000_000);
        }
        let raw: i64 = self.theta as i64 + (steps as i64) * (SECTOR_WIDTH as i64);
        Bearing::from_scaled(raw)
    }
}

} // verus!
