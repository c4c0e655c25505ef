//! Laws of the library: what holds of its results on every input.

use vstd::prelude::*;
use crate::angle::{
    DronePositionPolar, FULL_TURN, angles_of, valid_angle, valid_angles, valid_fov,
};
use crate::direction::{
    OptimalDirection, RadarError, doubled_center, is_optimal_direction, is_radar_outcome,
};
use crate::sorted::{ascending, lemma_map_values_permutation};
use crate::window::{
    count_visible, in_window, is_best_window, lemma_best_window_permutation, lemma_count_all,
    lemma_count_monotone,
};

verus! {

/// The best placement is unique: two placements that both qualify for the
/// same targets and the same width start at the same angle and see the same
/// number of targets.
pub proof fn law_best_window_is_unique(
    angles: Seq<int>,
    fov: int,
    start1: int,
    visible1: int,
    start2: int,
    visible2: int,
)
    requires
        valid_angles(angles),
        is_best_window(angles, fov, start1, visible1),
        is_best_window(angles, fov, start2, visible2),
    ensures
        start1 == start2,
        visible1 == visible2,
{
    // each start is a target, so neither window can see more than the other
    let k1 = choose|k: int| 0 <= k < angles.len() && angles[k] == start1;
    let k2 = choose|k: int| 0 <= k < angles.len() && angles[k] == start2;
    assert(count_visible(angles, angles[k1], fov) <= visible2);
    assert(count_visible(angles, angles[k2], fov) <= visible1);
}

/// Running the pipeline again on the same input gives the same outcome: the
/// contract leaves room for one outcome only.
pub proof fn law_outcome_is_determined(
    angles: Seq<int>,
    fov: int,
    first: Result<OptimalDirection, RadarError>,
    second: Result<OptimalDirection, RadarError>,
)
    requires
        valid_angles(angles),
        is_radar_outcome(angles, fov, first),
        is_radar_outcome(angles, fov, second),
    ensures
        first == second,
{
    if let Ok(found1) = first {
        if let Ok(found2) = second {
            law_best_window_is_unique(
                angles,
                fov,
                found1.window_start as int,
                found1.visible as int,
                found2.window_start as int,
                found2.visible as int,
            );
        }
    }
}

/// Giving the targets in another order does not change the outcome.
pub proof fn law_permutation_invariance(
    angles: Seq<int>,
    shuffled: Seq<int>,
    fov: int,
    outcome: Result<OptimalDirection, RadarError>,
    shuffled_outcome: Result<OptimalDirection, RadarError>,
)
    requires
        valid_angles(angles),
        angles.to_multiset() == shuffled.to_multiset(),
        is_radar_outcome(angles, fov, outcome),
        is_radar_outcome(shuffled, fov, shuffled_outcome),
    ensures
        outcome == shuffled_outcome,
{
    angles.to_multiset_ensures();
    shuffled.to_multiset_ensures();
    if let Ok(found) = shuffled_outcome {
        lemma_best_window_permutation(
            shuffled,
            angles,
            fov,
            found.window_start as int,
            found.visible as int,
        );
    }
    law_outcome_is_determined(angles, fov, outcome, shuffled_outcome);
}

/// Shuffling the positions before they are handed to the pipeline does not
/// change the outcome.
pub proof fn law_shuffled_positions(
    positions: Seq<DronePositionPolar>,
    shuffled: Seq<DronePositionPolar>,
    fov: int,
    outcome: Result<OptimalDirection, RadarError>,
    shuffled_outcome: Result<OptimalDirection, RadarError>,
)
    requires
        valid_angles(angles_of(positions)),
        positions.to_multiset() == shuffled.to_multiset(),
        is_radar_outcome(angles_of(positions), fov, outcome),
        is_radar_outcome(angles_of(shuffled), fov, shuffled_outcome),
    ensures
        outcome == shuffled_outcome,
{
    lemma_map_values_permutation(positions, shuffled, |p: DronePositionPolar| p@);
    law_permutation_invariance(
        angles_of(positions),
        angles_of(shuffled),
        fov,
        outcome,
        shuffled_outcome,
    );
}

/// A wider field of view never sees fewer targets at its best placement.
pub proof fn law_wider_fov_sees_no_fewer(
    angles: Seq<int>,
    narrow: int,
    wide: int,
    narrow_found: OptimalDirection,
    wide_found: OptimalDirection,
)
    requires
        valid_angles(angles),
        valid_fov(narrow),
        valid_fov(wide),
        narrow <= wide,
        is_optimal_direction(angles, narrow, narrow_found),
        is_optimal_direction(angles, wide, wide_found),
    ensures
        narrow_found.visible <= wide_found.visible,
{
    // widen the narrow answer's window where it stands
    let start = narrow_found.window_start as int;
    let k = choose|k: int| 0 <= k < angles.len() && angles[k] == start;
    assert(valid_angle(angles[k]));
    lemma_count_monotone(angles, start, narrow, start, wide);
}

/// Both ends of a window belong to it: a target exactly at the start angle,
/// or exactly at the end angle (taken round the circle), is inside, and
/// adding such a target to a batch raises the window's count by one.
pub proof fn law_boundary_inclusion(angles: Seq<int>, theta: int, start: int, width: int)
    requires
        valid_angle(theta),
        valid_angle(start),
        valid_fov(width),
        theta == start || theta == (start + width) % (FULL_TURN as int),
    ensures
        in_window(theta, start, width),
        count_visible(angles.push(theta), start, width) == count_visible(angles, start, width) + 1,
{
    assert(angles.push(theta).drop_last() =~= angles);
}

/// A field of view of a full turn sees every target, wherever it starts.
pub proof fn law_full_turn_sees_all(angles: Seq<int>, start: int)
    requires
        valid_angles(angles),
        valid_angle(start),
    ensures
        count_visible(angles, start, FULL_TURN as int) == angles.len(),
{
    lemma_count_all(angles, start, FULL_TURN as int);
}

/// With a field of view of a full turn the answer's count is the number of
/// targets.
pub proof fn law_full_coverage(angles: Seq<int>, found: OptimalDirection)
    requires
        valid_angles(angles),
        is_optimal_direction(angles, FULL_TURN as int, found),
    ensures
        found.visible == angles.len(),
{
    let k = choose|k: int| 0 <= k < angles.len() && angles[k] == found.window_start;
    assert(valid_angle(angles[k]));
    law_full_turn_sees_all(angles, found.window_start as int);
}

/// When every target has the same bearing, the best window starts at that
/// bearing and sees all of them, whatever its width; the direction is the
/// bisector of the window from that bearing.
pub proof fn law_coincident_targets(
    angles: Seq<int>,
    theta: int,
    fov: int,
    found: OptimalDirection,
)
    requires
        valid_angle(theta),
        valid_fov(fov),
        forall|i: int| 0 <= i < angles.len() ==> #[trigger] angles[i] == theta,
        is_optimal_direction(angles, fov, found),
    ensures
        found.window_start == theta,
        found.visible == angles.len(),
        found.direction.doubled() == doubled_center(theta, fov),
        fov == 0 ==> found.direction.units == theta && !found.direction.half,
{
    lemma_count_all(angles, theta, fov);
}

/// A window of width zero that starts at a target sees exactly the targets
/// that share the start's bearing.
pub proof fn law_zero_width_counts_duplicates(angles: Seq<int>, start: int)
    requires
        valid_angles(angles),
        valid_angle(start),
    ensures
        count_visible(angles, start, 0) == angles.to_multiset().count(start),
    decreases angles.len(),
{
    if angles.len() == 0 {
        angles.to_multiset_ensures();
    } else {
        let rest = angles.drop_last();
        assert(valid_angles(rest));
        law_zero_width_counts_duplicates(rest, start);
        assert(angles =~= rest.push(angles.last()));
        rest.to_multiset_ensures();
    }
}

/// A window never sees more targets than there are.
pub proof fn law_visible_at_most_all(angles: Seq<int>, start: int, width: int)
    ensures
        count_visible(angles, start, width) <= angles.len(),
    decreases angles.len(),
{
    if angles.len() > 0 {
        law_visible_at_most_all(angles.drop_last(), start, width);
    }
}

/// Sorting leaves no choice: two ascending arrangements of the same targets
/// are the same sequence.
pub proof fn law_sorting_is_determined(a: Seq<int>, b: Seq<int>)
    requires
        ascending(a),
        ascending(b),
        a.to_multiset() == b.to_multiset(),
    ensures
        a == b,
{
    let leq = |x: int, y: int| x <= y;
    vstd::seq_lib::lemma_sorted_unique(a, b, leq);
}

/// Zero targets never get a direction, and one target or more never get
/// `EmptyInput`.
pub proof fn law_empty_input_is_undefined(
    angles: Seq<int>,
    fov: int,
    outcome: Result<OptimalDirection, RadarError>,
)
    requires
        is_radar_outcome(angles, fov, outcome),
    ensures
        angles.len() == 0 <==> outcome == Err::<OptimalDirection, RadarError>(
            RadarError::EmptyInput,
        ),
{
}

} // verus!
