//! Angle units and the polar position of a target.

use vstd::prelude::*;

verus! {

/// Number of angle units in one degree: an angle is a whole number of microdegrees.
pub const UNITS_PER_DEGREE: u64 = 1_000_000;

/// Number of angle units in a full turn of 360 degrees.
pub const FULL_TURN: u64 = 360_000_000;

/// Number of angle units in two full turns.
pub const TWO_TURNS: u64 = 720_000_000;

/// An angle that has been reduced into `[0, FULL_TURN)`.
pub open spec fn valid_angle(theta: int) -> bool {
    0 <= theta < FULL_TURN
}

/// A field-of-view width between nothing and a full turn.
pub open spec fn valid_fov(fov: int) -> bool {
    0 <= fov <= FULL_TURN
}

/// Every element is an angle in `[0, FULL_TURN)`.
pub open spec fn valid_angles(angles: Seq<int>) -> bool {
    forall|i: int| 0 <= i < angles.len() ==> valid_angle(#[trigger] angles[i])
}

/// The angle in `[0, FULL_TURN)` that points the same way as `raw`:
/// one full turn is added and the sum is reduced modulo a full turn.
pub open spec fn normalized(raw: int) -> int {
    (raw + FULL_TURN) % (FULL_TURN as int)
}

/// Polar position of a target: its bearing from the sensor, in angle units.
#[derive(Clone, Copy, Debug, PartialEq, Eq, Structural)]
pub struct DronePositionPolar {
    theta: u64,
}

impl View for DronePositionPolar {
    type V = int;

    closed spec fn view(&self) -> int {
        self.theta as int
    }
}

impl DronePositionPolar {
    #[verifier::type_invariant]
    spec fn in_range(self) -> bool {
        self.theta < FULL_TURN
    }

    /// Builds a position from a raw bearing in angle units, as a conversion
    /// from Cartesian coordinates yields it (typically within half a turn of
    /// zero, either side). Any `raw` is accepted and reduced into
    /// `[0, FULL_TURN)`.
    pub fn from_raw(raw: i64) -> (p: Self)
        ensures
            p@ == normalized(raw as int),
            valid_angle(p@),
    {
        let theta: u64 = if raw >= 0 {
            (raw as u64) % FULL_TURN
        } else {
            // raw == -(k + 1) with k >= 0, so raw mod F == F - 1 - (k mod F)
            let k: u64 = (-(raw + 1)) as u64;
            FULL_TURN - 1 - k % FULL_TURN
        };
        DronePositionPolar { theta }
    }

    /// The bearing, in angle units.
    pub fn theta(&self) -> (theta: u64)
        ensures
            theta == self@,
            valid_angle(theta as int),
    {
        proof {
            use_type_invariant(self);
        }
        self.theta
    }
}

/// The bearings of a batch of positions, in the order given.
pub open spec fn angles_of(positions: Seq<DronePositionPolar>) -> Seq<int> {
    positions.map_values(|p: DronePositionPolar| p@)
}

} // verus!
