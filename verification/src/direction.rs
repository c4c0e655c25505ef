//! The direction resolver and the pipeline from positions to a direction.

use vstd::prelude::*;
use crate::angle::{
    DronePositionPolar, FULL_TURN, TWO_TURNS, angles_of, valid_angle, valid_fov,
};
use crate::scan::scan_coverage;
use crate::sorted::SortedAngleSequence;
use crate::window::{is_best_window, lemma_best_window_permutation, lemma_count_all};

verus! {

/// A direction on the circle, exact to half an angle unit: `units` whole
/// units, and half a unit more when `half` is set. The bisector of a window
/// of odd width falls between two whole units, and is still reported exactly.
#[derive(Clone, Copy, Debug, PartialEq, Eq, Structural)]
pub struct Direction {
    /// Whole angle units, in `[0, FULL_TURN)`.
    pub units: u64,
    /// Whether the direction lies half a unit past `units`.
    pub half: bool,
}

impl Direction {
    /// Twice the direction, in angle units: always a whole number.
    pub open spec fn doubled(self) -> int {
        2 * self.units + if self.half {
            1int
        } else {
            0int
        }
    }
}

/// Why no direction could be given.
#[derive(Clone, Copy, Debug, PartialEq, Eq, Structural)]
pub enum RadarError {
    /// There are no targets, so no direction is better than another.
    EmptyInput,
    /// The field of view is wider than a full turn.
    InvalidFov,
}

/// The best placement of the field of view and the direction to point at.
#[derive(Clone, Copy, Debug, PartialEq, Eq, Structural)]
pub struct OptimalDirection {
    /// The bisector of the best window, reduced into one turn.
    pub direction: Direction,
    /// Start angle of the best window, in angle units.
    pub window_start: u64,
    /// Number of targets inside the best window.
    pub visible: usize,
}

/// Twice the bisector of the window `[start, start + fov]`, reduced into two
/// full turns. The window's end and the sum are taken on the unbounded line,
/// so a window that runs past the full turn needs no special case; halving
/// the result gives the bisector reduced into one turn.
pub open spec fn doubled_center(start: int, fov: int) -> int {
    (start + (start + fov)) % (TWO_TURNS as int)
}

/// `found` is the answer for the targets at `angles` and the width `fov`:
/// its window is the best placement, and its direction bisects that window.
pub open spec fn is_optimal_direction(angles: Seq<int>, fov: int, found: OptimalDirection) -> bool {
    &&& is_best_window(angles, fov, found.window_start as int, found.visible as int)
    &&& found.direction.doubled() == doubled_center(found.window_start as int, fov)
    &&& valid_angle(found.direction.units as int)
}

/// `outcome` is what the pipeline owes for the targets at `angles` and the
/// width `fov`: `EmptyInput` exactly when there is no target, else
/// `InvalidFov` exactly when the width exceeds a full turn, else the answer.
pub open spec fn is_radar_outcome(
    angles: Seq<int>,
    fov: int,
    outcome: Result<OptimalDirection, RadarError>,
) -> bool {
    match outcome {
        Err(RadarError::EmptyInput) => angles.len() == 0,
        Err(RadarError::InvalidFov) => angles.len() > 0 && !valid_fov(fov),
        Ok(found) => angles.len() > 0 && valid_fov(fov) && is_optimal_direction(angles, fov, found),
    }
}

/// The bisector of the window that starts at `start_angle` and is `fov` wide,
/// reduced into one turn.
pub fn calculate_fov_center(start_angle: u64, fov: u64) -> (center: Direction)
    requires
        valid_angle(start_angle as int),
        valid_fov(fov as int),
    ensures
        center.doubled() == doubled_center(start_angle as int, fov as int),
        valid_angle(center.units as int),
{
    let end_angle: u64 = start_angle + fov;
    let sum: u64 = start_angle + end_angle;
    let middle: u64 = sum / 2;
    let units: u64 = if end_angle <= FULL_TURN {
        middle
    } else {
        middle % FULL_TURN
    };
    Direction { units, half: sum % 2 == 1 }
}

/// Finds the direction that sees the most of the sorted targets through a
/// field of view of width `fov`.
///
/// An empty batch is reported first, then a width above a full turn; any
/// other input gets its answer.
pub fn find_optimal_radar_direction(sorted: &SortedAngleSequence, fov: u64) -> (outcome: Result<
    OptimalDirection,
    RadarError,
>)
    ensures
        is_radar_outcome(sorted@, fov as int, outcome),
        sorted@.len() == 0 <==> outcome == Err::<OptimalDirection, RadarError>(
            RadarError::EmptyInput,
        ),
        fov == FULL_TURN && sorted@.len() > 0 ==> outcome is Ok && outcome->Ok_0.visible
            == sorted@.len(),
{
    let n: usize = sorted.len();
    if n == 0 {
        return Err(RadarError::EmptyInput);
    }
    if fov > FULL_TURN {
        return Err(RadarError::InvalidFov);
    }
    let best = scan_coverage(sorted, fov);
    let direction = calculate_fov_center(best.start, fov);
    proof {
        if fov == FULL_TURN {
            lemma_count_all(sorted@, best.start as int, fov as int);
        }
    }
    Ok(OptimalDirection { direction, window_start: best.start, visible: best.visible })
}

/// The whole pipeline: sorts the bearings of `positions` and finds the
/// direction that sees the most targets through a field of view of width
/// `fov`. The order in which the positions are given does not matter.
pub fn optimal_radar_direction(positions: &Vec<DronePositionPolar>, fov: u64) -> (outcome: Result<
    OptimalDirection,
    RadarError,
>)
    ensures
        is_radar_outcome(angles_of(positions@), fov as int, outcome),
        positions@.len() == 0 <==> outcome == Err::<OptimalDirection, RadarError>(
            RadarError::EmptyInput,
        ),
        fov == FULL_TURN && positions@.len() > 0 ==> outcome is Ok && outcome->Ok_0.visible
            == positions@.len(),
{
    if positions.len() == 0 {
        return Err(RadarError::EmptyInput);
    }
    let sorted = SortedAngleSequence::from_positions(positions);
    proof {
        sorted@.to_multiset_ensures();
        angles_of(positions@).to_multiset_ensures();
    }
    let outcome = find_optimal_radar_direction(&sorted, fov);
    proof {
        if let Ok(found) = outcome {
            lemma_best_window_permutation(
                sorted@,
                angles_of(positions@),
                fov as int,
                found.window_start as int,
                found.visible as int,
            );
        }
    }
    outcome
}

} // verus!
