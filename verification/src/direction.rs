//! Classification of a bearing into one of eight compass sectors.
//!
//! The half-open interval `(-pi, pi]` of bearing angles is split into eight
//! contiguous bands of width `pi / 4`, with boundaries at the odd multiples
//! of `pi / 8`.  The band around angle `0` is South; increasing angles run
//! through Southeast, East and Northeast up to North, which also covers the
//! band below `-7 * pi / 8`, because `+pi` and `-pi` name the same physical
//! direction.  This cardinal-to-angle table matches one fixed mounting
//! orientation of the sensor; a different mounting changes only this module.

use crate::bearing::{wrapped, Bearing, FULL_TURN, PI_UNITS, SECTOR_HALF_WIDTH, SECTOR_WIDTH};
use vstd::arithmetic::div_mod::{lemma_mod_add_multiples_vanish, lemma_small_mod};
use vstd::prelude::*;

verus! {

/// Cardinal directions.  Each one matches one of the eight indicator LEDs.
#[derive(Clone, Copy, Debug, PartialEq, Eq, Structural)]
pub enum Direction {
    /// North / LD3
    North,
    /// Northeast / LD5
    Northeast,
    /// East / LD7
    East,
    /// Southeast / LD9
    Southeast,
    /// South / LD10
    South,
    /// Southwest / LD8
    Southwest,
    /// West / LD6
    West,
    /// Northwest / LD4
    Northwest,
}

/// The sector that a bearing of `theta` scaled units falls in: bands of
/// width `SECTOR_WIDTH` are read off against ascending thresholds at the odd
/// multiples of `SECTOR_HALF_WIDTH`, and the angles at or above the last
/// threshold fold back onto North, the same sector as the angles below the
/// first one.
pub open spec fn sector_of(theta: int) -> Direction {
    if theta < -7 * SECTOR_HALF_WIDTH {
        Direction::North
    } else if theta < -5 * SECTOR_HALF_WIDTH {
        Direction::Northwest
    } else if theta < -3 * SECTOR_HALF_WIDTH {
        Direction::West
    } else if theta < -1 * SECTOR_HALF_WIDTH {
        Direction::Southwest
    } else if theta < 1 * SECTOR_HALF_WIDTH {
        Direction::South
    } else if theta < 3 * SECTOR_HALF_WIDTH {
        Direction::Southeast
    } else if theta < 5 * SECTOR_HALF_WIDTH {
        Direction::East
    } else if theta < 7 * SECTOR_HALF_WIDTH {
        Direction::Northeast
    } else {
        Direction::North
    }
}

/// Whether a bearing of `theta` scaled units lies inside the band of
/// sector `d`, with each band taken as a half-open angle interval and the
/// North band made of the two pieces that meet at `+/- pi`.
pub open spec fn in_sector(d: Direction, theta: int) -> bool {
    match d {
        Direction::North => (-PI_UNITS < theta < -7 * SECTOR_HALF_WIDTH) || (7
            * SECTOR_HALF_WIDTH <= theta <= PI_UNITS),
        Direction::Northwest => -7 * SECTOR_HALF_WIDTH <= theta < -5 * SECTOR_HALF_WIDTH,
        Direction::West => -5 * SECTOR_HALF_WIDTH <= theta < -3 * SECTOR_HALF_WIDTH,
        Direction::Southwest => -3 * SECTOR_HALF_WIDTH <= theta < -1 * SECTOR_HALF_WIDTH,
        Direction::South => -1 * SECTOR_HALF_WIDTH <= theta < 1 * SECTOR_HALF_WIDTH,
        Direction::Southeast => 1 * SECTOR_HALF_WIDTH <= theta < 3 * SECTOR_HALF_WIDTH,
        Direction::East => 3 * SECTOR_HALF_WIDTH <= theta < 5 * SECTOR_HALF_WIDTH,
        Direction::Northeast => 5 * SECTOR_HALF_WIDTH <= theta < 7 * SECTOR_HALF_WIDTH,
    }
}

/// The sector one step counterclockwise, that is the sector of a bearing
/// turned by one sector width (`pi / 4`) towards larger angles.
pub open spec fn next_sector(d: Direction) -> Direction {
    match d {
        Direction::Northwest => Direction::West,
        Direction::West => Direction::Southwest,
        Direction::Southwest => Direction::South,
        Direction::South => Direction::Southeast,
        Direction::Southeast => Direction::East,
        Direction::East => Direction::Northeast,
        Direction::Northeast => Direction::North,
        Direction::North => Direction::Northwest,
    }
}

/// The sector `n` steps counterclockwise from `d`.
pub open spec fn sector_stepped(d: Direction, n: nat) -> Direction
    decreases n,
{
    if n == 0 {
        d
    } else {
        next_sector(sector_stepped(d, (n - 1) as nat))
    }
}

/// Classifies a bearing into the sector its angle falls in.  Total: every
/// bearing yields exactly one of the eight directions.
pub fn direction(bearing: Bearing) -> (d: Direction)
    ensures
        d == sector_of(bearing.angle()),
{
    let theta = bearing.theta_scaled();
    if theta < -7 * SECTOR_HALF_WIDTH {
        Direction::North
    } else if theta < -5 * SECTOR_HALF_WIDTH {
        Direction::Northwest
    } else if theta < -3 * SECTOR_HALF_WIDTH {
        Direction::West
    } else if theta < -SECTOR_HALF_WIDTH {
        Direction::Southwest
    } else if theta < SECTOR_HALF_WIDTH {
        Direction::South
    } else if theta < 3 * SECTOR_HALF_WIDTH {
        Direction::Southeast
    } else if theta < 5 * SECTOR_HALF_WIDTH {
        Direction::East
    } else if theta < 7 * SECTOR_HALF_WIDTH {
        Direction::Northeast
    } else {
        Direction::North
    }
}

/// The indicator position driven by each direction: the eight user LEDs are
/// indexed clockwise from North.
pub open spec fn led_index_of(d: Direction) -> int {
    match d {
        Direction::North => 0,
        Direction::Northeast => 1,
        Direction::East => 2,
        Direction::Southeast => 3,
        Direction::South => 4,
        Direction::Southwest => 5,
        Direction::West => 6,
        Direction::Northwest => 7,
    }
}

/// The index of the indicator LED that shows direction `d`.
pub fn led_index(d: Direction) -> (i: usize)
    ensures
        i == led_index_of(d),
        i < 8,
{
    match d {
        Direction::North => 0,
        Direction::Northeast => 1,
        Direction::East => 2,
        Direction::Southeast => 3,
        Direction::South => 4,
        Direction::Southwest => 5,
        Direction::West => 6,
        Direction::Northwest => 7,
    }
}

/// The sector bands tile the whole angle interval with no gap and no
/// overlap: every valid angle lies in the band of its own sector and in no
/// other.
pub proof fn lemma_sectors_partition(theta: int)
    requires
        -PI_UNITS < theta <= PI_UNITS,
    ensures
        in_sector(sector_of(theta), theta),
        forall|d: Direction| in_sector(d, theta) ==> d == sector_of(theta),
{
}

/// The two band pieces that meet at `+/- pi` belong to the same sector:
/// angles just below `-7 * pi / 8` and angles at or above `7 * pi / 8`
/// both classify as North.
pub proof fn lemma_wraparound(low: int, high: int)
    requires
        -PI_UNITS < low < -7 * SECTOR_HALF_WIDTH,
        7 * SECTOR_HALF_WIDTH <= high <= PI_UNITS,
    ensures
        sector_of(low) == Direction::North,
        sector_of(high) == Direction::North,
{
}

/// Turning a bearing by one sector width moves its classification to the
/// adjacent sector.
proof fn lemma_rotation_step(theta: int)
    requires
        -PI_UNITS < theta <= PI_UNITS,
    ensures
        sector_of(wrapped(theta + SECTOR_WIDTH)) == next_sector(sector_of(theta)),
{
    let shifted = theta + SECTOR_WIDTH;
    if shifted <= PI_UNITS {
        crate::bearing::lemma_wrapped_identity(shifted);
    } else {
        lemma_mod_add_multiples_vanish(shifted - FULL_TURN, FULL_TURN as int);
        lemma_small_mod((shifted - FULL_TURN + FULL_TURN) as nat, FULL_TURN as nat);
        assert(wrapped(shifted) == shifted - FULL_TURN);
    }
}

/// Turning a bearing by `n` sector widths (`n * pi / 4`) moves its
/// classification by `n` sector steps, wrapping around the compass card.
pub proof fn lemma_rotation(theta: int, n: nat)
    requires
        -PI_UNITS < theta <= PI_UNITS,
    ensures
        sector_of(wrapped(theta + n * SECTOR_WIDTH)) == sector_stepped(sector_of(theta), n),
    decreases n,
{
    if n == 0 {
        crate::bearing::lemma_wrapped_identity(theta);
    } else {
        let m = (n - 1) as nat;
        lemma_rotation(theta, m);
        let prev = wrapped(theta + m * SECTOR_WIDTH);
        crate::bearing::lemma_wrapped_range(theta + m * SECTOR_WIDTH);
        lemma_rotation_step(prev);
        crate::bearing::lemma_wrapped_congruent(theta + m * SECTOR_WIDTH);
        assert(theta + n * SECTOR_WIDTH == (theta + m * SECTOR_WIDTH) + SECTOR_WIDTH)
            by (nonlinear_arith)
            requires
                n == m + 1,
        ;
        lemma_wrapped_shift_congruent(theta + m * SECTOR_WIDTH, prev, SECTOR_WIDTH as int);
    }
}

/// Two angles in the same class modulo a full turn stay in the same class
/// after the same shift, so they wrap to the same bearing.
proof fn lemma_wrapped_shift_congruent(a: int, b: int, shift: int)
    requires
        a % (FULL_TURN as int) == b % (FULL_TURN as int),
    ensures
        wrapped(a + shift) == wrapped(b + shift),
{
    let f = FULL_TURN as int;
    vstd::arithmetic::div_mod::lemma_add_mod_noop(a, shift, f);
    vstd::arithmetic::div_mod::lemma_add_mod_noop(b, shift, f);
}

} // verus!
