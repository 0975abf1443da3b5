//! Heading classification and magnitude normalization for a 3-axis
//! magnetometer.
//!
//! A raw reading is turned into a bearing angle and then into one of eight
//! compass sectors, and independently into a calibrated field magnitude.
//! Angles and magnitudes are held in fixed-point integer units so that the
//! sector boundary policy and the norm computation can be stated and checked
//! exactly; the board I/O and the floating-point arctangent that feed these
//! functions live outside the library.

pub mod bearing;
pub mod direction;
pub mod magnitude;
pub mod measurement;
