use radar_fov::angle::{DronePositionPolar, FULL_TURN, UNITS_PER_DEGREE};
use radar_fov::direction::{
    calculate_fov_center, optimal_radar_direction, OptimalDirection, RadarError,
};
use radar_fov::sorted::SortedAngleSequence;

const DEG: u64 = UNITS_PER_DEGREE;

/// A small deterministic generator, so that every run sees the same batches.
struct Lcg(u64);

impl Lcg {
    fn next(&mut self) -> u64 {
        self.0 = self.0.wrapping_mul(6364136223846793005).wrapping_add(1442695040888963407);
        self.0 >> 33
    }
}

fn batch(rng: &mut Lcg, len: usize, distinct: u64) -> Vec<u64> {
    (0..len).map(|_| (rng.next() % distinct) * (FULL_TURN / distinct)).collect()
}

fn positions(thetas: &[u64]) -> Vec<DronePositionPolar> {
    thetas.iter().map(|t| DronePositionPolar::from_raw(*t as i64)).collect()
}

fn sees(theta: u64, start: u64, fov: u64) -> bool {
    let offset: u64 = if theta >= start { theta - start } else { theta + FULL_TURN - start };
    offset <= fov
}

fn count_seen(thetas: &[u64], start: u64, fov: u64) -> usize {
    thetas.iter().filter(|t| sees(**t, start, fov)).count()
}

/// The answer by exhaustive search: every target is tried as a start, in
/// ascending order, and the first best one is kept.
fn exhaustive(thetas: &[u64], fov: u64) -> (u64, usize) {
    let mut starts: Vec<u64> = thetas.to_vec();
    starts.sort();
    let mut best: (u64, usize) = (0, 0);
    for start in starts {
        let seen: usize = count_seen(thetas, start, fov);
        if seen > best.1 {
            best = (start, seen);
        }
    }
    best
}

fn widths() -> Vec<u64> {
    vec![0, 1, DEG, 30 * DEG, 90 * DEG - 1, 90 * DEG, 180 * DEG, 359 * DEG, FULL_TURN - 1, FULL_TURN]
}

#[test]
fn same_input_same_outcome() {
    let mut rng = Lcg(7);
    for round in 0..50usize {
        let thetas = batch(&mut rng, 1 + round % 17, 36);
        let given = positions(&thetas);
        for fov in widths() {
            let first = optimal_radar_direction(&given, fov);
            let second = optimal_radar_direction(&given, fov);
            assert_eq!(first, second);
        }
    }
}

#[test]
fn order_of_the_input_does_not_matter() {
    let mut rng = Lcg(11);
    for round in 0..50usize {
        let thetas = batch(&mut rng, 1 + round % 23, 24);
        let mut reversed = thetas.clone();
        reversed.reverse();
        let mut rotated = thetas.clone();
        rotated.rotate_left(round % thetas.len());
        let mut shuffled = thetas.clone();
        for i in (1..shuffled.len()).rev() {
            let j: usize = (rng.next() % (i as u64 + 1)) as usize;
            shuffled.swap(i, j);
        }
        for fov in widths() {
            let expected = optimal_radar_direction(&positions(&thetas), fov);
            assert_eq!(optimal_radar_direction(&positions(&reversed), fov), expected);
            assert_eq!(optimal_radar_direction(&positions(&rotated), fov), expected);
            assert_eq!(optimal_radar_direction(&positions(&shuffled), fov), expected);
        }
    }
}

#[test]
fn wider_field_of_view_never_sees_fewer() {
    let mut rng = Lcg(13);
    for round in 0..40usize {
        let thetas = batch(&mut rng, 1 + round % 19, 72);
        let given = positions(&thetas);
        let mut previous: usize = 0;
        for fov in widths() {
            let found = optimal_radar_direction(&given, fov).unwrap();
            assert!(found.visible >= previous);
            assert!(found.visible >= 1);
            assert!(found.visible <= thetas.len());
            previous = found.visible;
        }
    }
}

#[test]
fn full_turn_counts_every_target() {
    let mut rng = Lcg(17);
    for round in 0..40usize {
        let thetas = batch(&mut rng, 1 + round % 29, 12);
        let found = optimal_radar_direction(&positions(&thetas), FULL_TURN).unwrap();
        assert_eq!(found.visible, thetas.len());
        assert_eq!(found.window_start, *thetas.iter().min().unwrap());
    }
}

#[test]
fn scan_agrees_with_exhaustive_search() {
    let mut rng = Lcg(19);
    for round in 0..200usize {
        let distinct: u64 = [4u64, 12, 36, 360, 3600][round % 5];
        let thetas = batch(&mut rng, 1 + round % 31, distinct);
        let given = positions(&thetas);
        for fov in widths() {
            let found = optimal_radar_direction(&given, fov).unwrap();
            let (start, seen) = exhaustive(&thetas, fov);
            assert_eq!(found.window_start, start);
            assert_eq!(found.visible, seen);
            assert_eq!(found.direction, calculate_fov_center(start, fov));
        }
    }
}

#[test]
fn no_window_anywhere_sees_more() {
    let mut rng = Lcg(23);
    for round in 0..60usize {
        let thetas = batch(&mut rng, 1 + round % 13, 360);
        let given = positions(&thetas);
        for fov in widths() {
            let found = optimal_radar_direction(&given, fov).unwrap();
            assert_eq!(count_seen(&thetas, found.window_start, fov), found.visible);
            for _ in 0..40 {
                let anywhere: u64 = rng.next() % FULL_TURN;
                assert!(count_seen(&thetas, anywhere, fov) <= found.visible);
            }
        }
    }
}

#[test]
fn targets_on_both_ends_are_counted() {
    let mut rng = Lcg(29);
    for _ in 0..100 {
        let start: u64 = rng.next() % FULL_TURN;
        let fov: u64 = rng.next() % (FULL_TURN + 1);
        let end: u64 = (start + fov) % FULL_TURN;
        let found = optimal_radar_direction(&positions(&[start, end]), fov).unwrap();
        assert_eq!(found.visible, 2);
    }
}

#[test]
fn sorter_output_is_an_ascending_rearrangement() {
    let mut rng = Lcg(31);
    for round in 0..60usize {
        let thetas = batch(&mut rng, round % 40, 90);
        let sorted = SortedAngleSequence::from_positions(&positions(&thetas));
        let out: Vec<u64> = (0..sorted.len()).map(|i| sorted.angle(i)).collect();
        let mut expected = thetas.clone();
        expected.sort();
        assert_eq!(out, expected);
    }
}

#[test]
fn empty_batch_never_yields_a_direction() {
    let nothing: Vec<DronePositionPolar> = Vec::new();
    for fov in widths() {
        let outcome: Result<OptimalDirection, RadarError> = optimal_radar_direction(&nothing, fov);
        assert_eq!(outcome, Err(RadarError::EmptyInput));
        assert_ne!(
            outcome.map(|found| found.direction.units),
            Ok(0)
        );
    }
}

#[test]
fn large_batch_is_handled() {
    let mut rng = Lcg(37);
    let thetas: Vec<u64> = (0..100_000usize).map(|_| rng.next() % FULL_TURN).collect();
    let found = optimal_radar_direction(&positions(&thetas), 90 * DEG).unwrap();
    assert_eq!(count_seen(&thetas, found.window_start, 90 * DEG), found.visible);
    assert!(found.visible >= 25_000);
    assert!(found.visible <= 100_000);
}
