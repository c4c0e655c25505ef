use radar_fov::angle::{DronePositionPolar, FULL_TURN, TWO_TURNS, UNITS_PER_DEGREE};
use radar_fov::direction::{calculate_fov_center, Direction};

const DEG: u64 = UNITS_PER_DEGREE;

#[test]
fn units_of_the_circle() {
    assert_eq!(UNITS_PER_DEGREE, 1_000_000);
    assert_eq!(FULL_TURN, 360 * UNITS_PER_DEGREE);
    assert_eq!(TWO_TURNS, 2 * FULL_TURN);
}

#[test]
fn raw_bearings_in_the_upper_half_stay() {
    assert_eq!(DronePositionPolar::from_raw(0).theta(), 0);
    assert_eq!(DronePositionPolar::from_raw(1).theta(), 1);
    assert_eq!(DronePositionPolar::from_raw(45_000_000).theta(), 45 * DEG);
    assert_eq!(DronePositionPolar::from_raw(180_000_000).theta(), 180 * DEG);
}

#[test]
fn negative_raw_bearings_gain_a_full_turn() {
    assert_eq!(DronePositionPolar::from_raw(-1).theta(), FULL_TURN - 1);
    assert_eq!(DronePositionPolar::from_raw(-90_000_000).theta(), 270 * DEG);
    assert_eq!(DronePositionPolar::from_raw(-179_999_999).theta(), 180 * DEG + 1);
    assert_eq!(DronePositionPolar::from_raw(-180_000_000).theta(), 180 * DEG);
}

#[test]
fn raw_bearings_beyond_a_turn_are_reduced() {
    assert_eq!(DronePositionPolar::from_raw(360_000_000).theta(), 0);
    assert_eq!(DronePositionPolar::from_raw(360_000_001).theta(), 1);
    assert_eq!(DronePositionPolar::from_raw(725_000_000).theta(), 5 * DEG);
    assert_eq!(DronePositionPolar::from_raw(-360_000_000).theta(), 0);
    assert_eq!(DronePositionPolar::from_raw(-360_000_001).theta(), FULL_TURN - 1);
    assert_eq!(DronePositionPolar::from_raw(-725_000_000).theta(), 355 * DEG);
}

#[test]
fn extreme_raw_bearings_are_reduced() {
    assert_eq!(DronePositionPolar::from_raw(i64::MAX).theta(), 54_775_807);
    assert_eq!(DronePositionPolar::from_raw(i64::MIN).theta(), 305_224_192);
    assert_eq!(DronePositionPolar::from_raw(i64::MIN + 1).theta(), 305_224_193);
}

#[test]
fn equal_bearings_make_equal_positions() {
    assert_eq!(
        DronePositionPolar::from_raw(-90_000_000),
        DronePositionPolar::from_raw(270_000_000)
    );
    assert_ne!(DronePositionPolar::from_raw(0), DronePositionPolar::from_raw(1));
}

#[test]
fn center_of_a_window_inside_the_turn() {
    assert_eq!(calculate_fov_center(10 * DEG, 90 * DEG), Direction { units: 55 * DEG, half: false });
    assert_eq!(calculate_fov_center(0, 0), Direction { units: 0, half: false });
    assert_eq!(calculate_fov_center(0, FULL_TURN), Direction { units: 180 * DEG, half: false });
    assert_eq!(calculate_fov_center(270 * DEG, 90 * DEG), Direction { units: 315 * DEG, half: false });
}

#[test]
fn center_of_a_window_past_the_turn() {
    assert_eq!(calculate_fov_center(350 * DEG, 30 * DEG), Direction { units: 5 * DEG, half: false });
    assert_eq!(calculate_fov_center(350 * DEG, 20 * DEG), Direction { units: 0, half: false });
    assert_eq!(calculate_fov_center(300 * DEG, 100 * DEG), Direction { units: 350 * DEG, half: false });
    assert_eq!(
        calculate_fov_center(FULL_TURN - 1, FULL_TURN),
        Direction { units: 179_999_999, half: false }
    );
    assert_eq!(calculate_fov_center(180 * DEG, FULL_TURN), Direction { units: 0, half: false });
}

#[test]
fn center_of_a_window_of_odd_width() {
    assert_eq!(calculate_fov_center(0, 1), Direction { units: 0, half: true });
    assert_eq!(calculate_fov_center(10 * DEG, 90 * DEG + 1), Direction { units: 55 * DEG, half: true });
    assert_eq!(
        calculate_fov_center(FULL_TURN - 1, 1),
        Direction { units: FULL_TURN - 1, half: true }
    );
    assert_eq!(calculate_fov_center(FULL_TURN - 1, 3), Direction { units: 0, half: true });
}

#[test]
fn center_is_twice_exact() {
    let starts: [u64; 5] = [0, 1, 123_456_789, 359_999_998, 359_999_999];
    let widths: [u64; 6] = [0, 1, 2, 179_999_999, 359_999_999, 360_000_000];
    for start in starts {
        for width in widths {
            let center = calculate_fov_center(start, width);
            let doubled: u64 = 2 * center.units + if center.half { 1 } else { 0 };
            assert_eq!(doubled, (start + (start + width)) % TWO_TURNS);
            assert!(center.units < FULL_TURN);
        }
    }
}
