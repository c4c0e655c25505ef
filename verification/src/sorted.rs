//! The angular sorter: target bearings in ascending order.

use vstd::prelude::*;
use itertools::Itertools;
use crate::angle::{DronePositionPolar, angles_of, valid_angle, valid_angles};

verus! {

/// No element is larger than a later one.
pub open spec fn ascending(angles: Seq<int>) -> bool {
    forall|i: int, j: int| 0 <= i <= j < angles.len() ==> angles[i] <= angles[j]
}

/// The same machine integers, read as mathematical ones.
pub open spec fn as_ints(units: Seq<u64>) -> Seq<int> {
    units.map_values(|u: u64| u as int)
}

/// Sorts with `itertools::Itertools::sorted`, which collects the items into a
/// `Vec`, sorts it with `slice::sort` and hands the items back in that order.
/// Trusted: the result holds exactly the items given, each as often as it was
/// given, and no item is larger than a later one.
#[verifier::external_body]
fn sorted_ascending(angles: Vec<u64>) -> (sorted: Vec<u64>)
    ensures
        sorted@.to_multiset() == angles@.to_multiset(),
        forall|i: int, j: int| 0 <= i <= j < sorted@.len() ==> sorted@[i] <= sorted@[j],
{
    angles.into_iter().sorted().collect()
}

/// Mapping two arrangements of the same items gives two arrangements of the
/// same images.
pub proof fn lemma_map_values_permutation<A, B>(a: Seq<A>, b: Seq<A>, f: spec_fn(A) -> B)
    requires
        a.to_multiset() == b.to_multiset(),
    ensures
        a.map_values(f).to_multiset() == b.map_values(f).to_multiset(),
    decreases a.len(),
{
    a.to_multiset_ensures();
    b.to_multiset_ensures();
    if a.len() == 0 {
        assert(a.map_values(f) =~= b.map_values(f));
    } else {
        let x = a.last();
        assert(a.contains(x));
        assert(b.to_multiset().count(x) > 0);
        let i = choose|i: int| 0 <= i < b.len() && b[i] == x;
        let a0 = a.drop_last();
        let b0 = b.remove(i);
        assert(a0 =~= a.remove(a.len() - 1));
        lemma_map_values_permutation(a0, b0, f);
        let ma = a.map_values(f);
        let mb = b.map_values(f);
        assert(ma =~= a0.map_values(f).push(f(x)));
        assert(mb.remove(i) =~= b0.map_values(f));
        a0.map_values(f).to_multiset_ensures();
        mb.to_multiset_ensures();
        assert(mb.contains(f(x)));
    }
}

/// Target bearings sorted ascending, each in `[0, FULL_TURN)`. Targets that
/// share a bearing all stay in the sequence.
pub struct SortedAngleSequence {
    angles: Vec<u64>,
}

impl View for SortedAngleSequence {
    type V = Seq<int>;

    closed spec fn view(&self) -> Seq<int> {
        as_ints(self.angles@)
    }
}

impl SortedAngleSequence {
    #[verifier::type_invariant]
    spec fn sorted_and_in_range(self) -> bool {
        ascending(self@) && valid_angles(self@)
    }

    /// Sorts the bearings of `positions` ascending. The input may be empty
    /// and may hold a bearing more than once; the result holds the same
    /// bearings, each as often as the input does.
    pub fn from_positions(positions: &Vec<DronePositionPolar>) -> (sorted: Self)
        ensures
            sorted@.to_multiset() == angles_of(positions@).to_multiset(),
            ascending(sorted@),
            valid_angles(sorted@),
    {
        let mut thetas: Vec<u64> = Vec::new();
        let mut i: usize = 0;
        while i < positions.len()
            invariant
                i <= positions.len(),
                thetas@.len() == i,
                forall|k: int|
                    0 <= k < i ==> (#[trigger] thetas@[k]) as int == positions@[k]@ && valid_angle(
                        thetas@[k] as int,
                    ),
            decreases positions.len() - i,
        {
            let theta: u64 = positions[i].theta();
            thetas.push(theta);
            i += 1;
        }
        let sorted_thetas = sorted_ascending(thetas);
        proof {
            let f = |u: u64| u as int;
            lemma_map_values_permutation(sorted_thetas@, thetas@, f);
            assert(as_ints(thetas@) =~= angles_of(positions@));
            sorted_thetas@.to_multiset_ensures();
            thetas@.to_multiset_ensures();
            assert forall|k: int| 0 <= k < sorted_thetas@.len() implies valid_angle(
                #[trigger] as_ints(sorted_thetas@)[k],
            ) by {
                // the bearing came out of `thetas`, whose entries are in range
                assert(thetas@.to_multiset().count(sorted_thetas@[k]) > 0);
            }
        }
        SortedAngleSequence { angles: sorted_thetas }
    }

    /// Number of targets. The contract also recalls what holds of every
    /// value of this type: the bearings are ascending and in range.
    pub fn len(&self) -> (n: usize)
        ensures
            n == self@.len(),
            ascending(self@),
            valid_angles(self@),
    {
        proof {
            use_type_invariant(self);
        }
        self.angles.len()
    }

    /// The bearing at position `i` of the ascending order.
    pub fn angle(&self, i: usize) -> (theta: u64)
        requires
            i < self@.len(),
        ensures
            theta == self@[i as int],
            valid_angle(theta as int),
    {
        proof {
            use_type_invariant(self);
        }
        self.angles[i]
    }
}

} // verus!
