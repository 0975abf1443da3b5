use compass_2_0::bearing::Bearing;
use compass_2_0::direction::{direction, led_index, Direction};
use compass_2_0::magnitude::{magnitude, magnitude_scaled};
use compass_2_0::measurement::RawMeasurement;

/// Scales a bearing in radians to the library's fixed-point angle units, as
/// the firmware does after the arctangent.
fn scaled_from_radians(theta: f32) -> i64 {
    (theta * (8_000_000.0f32 / core::f32::consts::PI)).round() as i64
}

#[test]
fn angle_zero_is_south() {
    let b = Bearing::from_scaled(0);
    assert_eq!(b.theta_scaled(), 0);
    assert_eq!(direction(b), Direction::South);
}

#[test]
fn quarter_turn_is_east() {
    let b = Bearing::from_scaled(4_000_000);
    assert_eq!(direction(b), Direction::East);
}

#[test]
fn half_turn_is_north() {
    let b = Bearing::from_scaled(8_000_000);
    assert_eq!(direction(b), Direction::North);
}

#[test]
fn sector_thresholds() {
    let expected: [(i64, Direction); 10] = [
        (-7_000_001, Direction::North),
        (-7_000_000, Direction::Northwest),
        (-5_000_000, Direction::West),
        (-3_000_000, Direction::Southwest),
        (-1_000_000, Direction::South),
        (999_999, Direction::South),
        (1_000_000, Direction::Southeast),
        (3_000_000, Direction::East),
        (5_000_000, Direction::Northeast),
        (7_000_000, Direction::North),
    ];
    for (theta, sector) in expected {
        assert_eq!(direction(Bearing::from_scaled(theta)), sector, "at {}", theta);
    }
}

#[test]
fn seam_meets_in_north() {
    let just_below = direction(Bearing::from_scaled(-7_000_001));
    let at_top = direction(Bearing::from_scaled(7_000_000));
    let at_pi = direction(Bearing::from_scaled(8_000_000));
    assert_eq!(just_below, Direction::North);
    assert_eq!(at_top, Direction::North);
    assert_eq!(at_pi, Direction::North);
}

#[test]
fn wrapping_into_range() {
    assert_eq!(Bearing::from_scaled(16_000_000).theta_scaled(), 0);
    assert_eq!(Bearing::from_scaled(-8_000_000).theta_scaled(), 8_000_000);
    assert_eq!(Bearing::from_scaled(9_000_000).theta_scaled(), -7_000_000);
    assert_eq!(Bearing::from_scaled(24_000_000).theta_scaled(), 8_000_000);
    assert_eq!(Bearing::from_scaled(-17_000_000).theta_scaled(), -1_000_000);
    assert_eq!(Bearing::from_scaled(160_000_123).theta_scaled(), 123);
}

#[test]
fn rotation_steps_through_sectors() {
    let south = Bearing::from_scaled(0);
    assert_eq!(direction(south.rotate(1)), Direction::Southeast);
    assert_eq!(direction(south.rotate(2)), Direction::East);
    assert_eq!(direction(south.rotate(3)), Direction::Northeast);
    assert_eq!(direction(south.rotate(4)), Direction::North);
    assert_eq!(direction(south.rotate(5)), Direction::Northwest);
    assert_eq!(direction(south.rotate(6)), Direction::West);
    assert_eq!(direction(south.rotate(7)), Direction::Southwest);
    assert_eq!(direction(south.rotate(8)), Direction::South);
    assert_eq!(direction(south.rotate(-1)), Direction::Southwest);
    assert_eq!(direction(south.rotate(-8)), Direction::South);
}

#[test]
fn rotation_crosses_the_seam() {
    let north = Bearing::from_scaled(7_500_000);
    assert_eq!(direction(north), Direction::North);
    assert_eq!(direction(north.rotate(1)), Direction::Northwest);
    assert_eq!(direction(north.rotate(-1)), Direction::Northeast);
}

#[test]
fn led_indices_are_distinct() {
    let all = [
        Direction::North,
        Direction::Northeast,
        Direction::East,
        Direction::Southeast,
        Direction::South,
        Direction::Southwest,
        Direction::West,
        Direction::Northwest,
    ];
    for (i, d) in all.into_iter().enumerate() {
        assert_eq!(led_index(d), i);
    }
}

#[test]
fn magnitude_of_one_gauss_readings() {
    assert_eq!(magnitude(&RawMeasurement::new(1100, 0, 0)), 1000);
    assert_eq!(magnitude(&RawMeasurement::new(0, 1100, 0)), 1000);
    assert_eq!(magnitude(&RawMeasurement::new(-1100, 0, 0)), 1000);
    assert_eq!(magnitude(&RawMeasurement::new(0, 0, 980)), 1000);
    assert_eq!(magnitude_scaled(&RawMeasurement::new(1100, 0, 0)), 1_078_000);
    assert_eq!(magnitude_scaled(&RawMeasurement::new(0, 0, 980)), 1_078_000);
}

#[test]
fn magnitude_zero_only_at_origin() {
    assert_eq!(magnitude_scaled(&RawMeasurement::new(0, 0, 0)), 0);
    assert_eq!(magnitude(&RawMeasurement::new(0, 0, 0)), 0);
    assert!(magnitude_scaled(&RawMeasurement::new(1, 0, 0)) > 0);
    assert!(magnitude_scaled(&RawMeasurement::new(0, -1, 0)) > 0);
    assert!(magnitude_scaled(&RawMeasurement::new(0, 0, 1)) > 0);
    // One sensor count is below a milligauss, but rounding to the nearest
    // milligauss keeps every nonzero reading above zero.
    assert_eq!(magnitude_scaled(&RawMeasurement::new(1, 0, 0)), 980);
    assert_eq!(magnitude(&RawMeasurement::new(1, 0, 0)), 1);
    assert_eq!(magnitude(&RawMeasurement::new(0, -1, 0)), 1);
    assert_eq!(magnitude(&RawMeasurement::new(0, 0, 1)), 1);
}

#[test]
fn magnitude_scales_linearly() {
    let small = magnitude_scaled(&RawMeasurement::new(100, -200, 300));
    let large = magnitude_scaled(&RawMeasurement::new(300, -600, 900));
    assert!(3 * small <= large);
    assert!(large < 3 * (small + 1));
}

#[test]
fn bearing_from_arctangent_of_axes() {
    let cases: [(i16, i16, Direction); 9] = [
        (100, 0, Direction::South),
        (100, 100, Direction::Southeast),
        (0, 100, Direction::East),
        (-100, 100, Direction::Northeast),
        (-100, 0, Direction::North),
        (-100, -100, Direction::Northwest),
        (0, -100, Direction::West),
        (100, -100, Direction::Southwest),
        (0, 0, Direction::South),
    ];
    for (x, y, sector) in cases {
        let theta = (y as f32).atan2(x as f32);
        let b = Bearing::from_scaled(scaled_from_radians(theta));
        assert_eq!(direction(b), sector, "at x = {}, y = {}", x, y);
    }
}

#[test]
fn degenerate_reading_keeps_zero_bearing() {
    // Both horizontal axes at zero: the arctangent of (0, 0) is zero, so the
    // bearing is zero and the magnitude comes from the vertical axis alone.
    let theta = (0.0f32).atan2(0.0f32);
    assert_eq!(theta, 0.0);
    let b = Bearing::from_scaled(scaled_from_radians(theta));
    assert_eq!(b.theta_scaled(), 0);
    assert_eq!(direction(b), Direction::South);
    assert_eq!(magnitude(&RawMeasurement::new(0, 0, 980)), 1000);
}
