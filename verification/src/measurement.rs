//! The raw 3-axis magnetometer reading.

use vstd::prelude::*;

verus! {

/// One raw magnetometer sample: one signed sensor count per axis, exactly as
/// the sensor delivers it.  Any representable value is a valid reading.
#[derive(Clone, Copy, Debug, PartialEq, Eq, Structural)]
pub struct RawMeasurement {
    /// Sensor counts along the x axis.
    pub x: i16,
    /// Sensor counts along the y axis.
    pub y: i16,
    /// Sensor counts along the z axis.
    pub z: i16,
}

impl RawMeasurement {
    /// Packs three axis counts into one reading.
    pub fn new(x: i16, y: i16, z: i16) -> (r: RawMeasurement)
        ensures
            r.x == x,
            r.y == y,
            r.z == z,
    {
        RawMeasurement { x, y, z }
    }
}

} // verus!
