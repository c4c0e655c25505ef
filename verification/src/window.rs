//! Arc windows on the circle and how many targets one of them sees.
//!
//! A window is a closed arc given by its start angle and its width. Its
//! covered range `[start, start + width]` lives on the unbounded line, where
//! it may run past a full turn; a target at angle `theta` is seen when either
//! `theta` or `theta` plus a full turn falls inside that range.

use vstd::prelude::*;
use crate::angle::{FULL_TURN, valid_angle, valid_angles, valid_fov};

verus! {

/// A target at `theta` lies in the closed arc of `width` units that starts at
/// `start`. Both ends belong to the arc.
pub open spec fn in_window(theta: int, start: int, width: int) -> bool {
    ||| start <= theta <= start + width
    ||| start <= theta + FULL_TURN <= start + width
}

/// Number of targets, duplicates included, that the window sees.
pub open spec fn count_visible(angles: Seq<int>, start: int, width: int) -> nat
    decreases angles.len(),
{
    if angles.len() == 0 {
        0
    } else {
        count_visible(angles.drop_last(), start, width) + if in_window(
            angles.last(),
            start,
            width,
        ) {
            1nat
        } else {
            0nat
        }
    }
}

/// How far `theta` lies past `start`, going round in the direction of
/// increasing angle: a value in `[0, FULL_TURN)` for angles in that range.
spec fn offset_from(theta: int, start: int) -> int {
    if theta >= start {
        theta - start
    } else {
        theta - start + FULL_TURN
    }
}

/// Counting over a concatenation adds the counts of the parts.
pub proof fn lemma_count_concat(a: Seq<int>, b: Seq<int>, start: int, width: int)
    ensures
        count_visible(a + b, start, width) == count_visible(a, start, width) + count_visible(
            b,
            start,
            width,
        ),
    decreases b.len(),
{
    if b.len() > 0 {
        assert((a + b).drop_last() =~= a + b.drop_last());
        lemma_count_concat(a, b.drop_last(), start, width);
    }
}

/// A window that sees every target of a batch counts all of them.
pub proof fn lemma_count_all(angles: Seq<int>, start: int, width: int)
    requires
        forall|i: int| 0 <= i < angles.len() ==> in_window(#[trigger] angles[i], start, width),
    ensures
        count_visible(angles, start, width) == angles.len(),
    decreases angles.len(),
{
    if angles.len() > 0 {
        lemma_count_all(angles.drop_last(), start, width);
    }
}

/// A window that sees no target of a batch counts none.
pub proof fn lemma_count_none(angles: Seq<int>, start: int, width: int)
    requires
        forall|i: int| 0 <= i < angles.len() ==> !in_window(#[trigger] angles[i], start, width),
    ensures
        count_visible(angles, start, width) == 0,
    decreases angles.len(),
{
    if angles.len() > 0 {
        lemma_count_none(angles.drop_last(), start, width);
    }
}

/// If every target that one window sees is also seen by another, the other
/// counts at least as many.
pub proof fn lemma_count_monotone(
    angles: Seq<int>,
    start1: int,
    width1: int,
    start2: int,
    width2: int,
)
    requires
        forall|i: int|
            0 <= i < angles.len() && in_window(#[trigger] angles[i], start1, width1) ==> in_window(
                angles[i],
                start2,
                width2,
            ),
    ensures
        count_visible(angles, start1, width1) <= count_visible(angles, start2, width2),
    decreases angles.len(),
{
    if angles.len() > 0 {
        lemma_count_monotone(angles.drop_last(), start1, width1, start2, width2);
    }
}

/// Taking one target out lowers the count by one exactly when the window saw it.
pub proof fn lemma_count_remove(angles: Seq<int>, i: int, start: int, width: int)
    requires
        0 <= i < angles.len(),
    ensures
        count_visible(angles, start, width) == count_visible(angles.remove(i), start, width) + if in_window(
            angles[i],
            start,
            width,
        ) {
            1nat
        } else {
            0nat
        },
{
    let head = angles.subrange(0, i);
    let one = angles.subrange(i, i + 1);
    let tail = angles.subrange(i + 1, angles.len() as int);
    assert(angles =~= head + one + tail);
    lemma_count_concat(head + one, tail, start, width);
    lemma_count_concat(head, one, start, width);
    lemma_count_concat(head, tail, start, width);
    assert(count_visible(one.drop_last(), start, width) == 0);
}

/// The count depends on which targets there are, not on their order.
pub proof fn lemma_count_permutation(a: Seq<int>, b: Seq<int>, start: int, width: int)
    requires
        a.to_multiset() == b.to_multiset(),
    ensures
        count_visible(a, start, width) == count_visible(b, start, width),
    decreases a.len(),
{
    a.to_multiset_ensures();
    b.to_multiset_ensures();
    if a.len() > 0 {
        let x = a.last();
        assert(a.contains(x));
        assert(b.to_multiset().count(x) > 0);
        let i = choose|i: int| 0 <= i < b.len() && b[i] == x;
        assert(a.drop_last() =~= a.remove(a.len() - 1));
        lemma_count_permutation(a.drop_last(), b.remove(i), start, width);
        lemma_count_remove(b, i, start, width);
    }
}

/// Two batches with the same targets hold the same angles.
pub proof fn lemma_contains_permutation(a: Seq<int>, b: Seq<int>, x: int)
    requires
        a.to_multiset() == b.to_multiset(),
    ensures
        a.contains(x) <==> b.contains(x),
{
    a.to_multiset_ensures();
    b.to_multiset_ensures();
    assert(b.contains(x) <==> b.to_multiset().count(x) > 0);
}

/// Index of a target that comes first when going round from `start`.
proof fn lemma_nearest_target(angles: Seq<int>, start: int) -> (m: int)
    requires
        angles.len() > 0,
    ensures
        0 <= m < angles.len(),
        forall|k: int|
            0 <= k < angles.len() ==> offset_from(angles[m], start) <= offset_from(
                #[trigger] angles[k],
                start,
            ),
    decreases angles.len(),
{
    let last = angles.len() - 1;
    if angles.len() == 1 {
        0
    } else {
        let rest = angles.drop_last();
        let m0 = lemma_nearest_target(rest, start);
        let m = if offset_from(angles[last], start) < offset_from(angles[m0], start) {
            last
        } else {
            m0
        };
        assert forall|k: int| 0 <= k < angles.len() implies offset_from(angles[m], start)
            <= offset_from(#[trigger] angles[k], start) by {
            if k < last {
                assert(rest[k] == angles[k]);
            }
        }
        m
    }
}

/// The sweep-line argument: a window placed anywhere can be slid forward
/// until its start touches a target without losing sight of any target. The
/// result is the index of such a target.
pub proof fn lemma_window_can_start_at_target(angles: Seq<int>, start: int, width: int) -> (k: int)
    requires
        valid_angles(angles),
        valid_angle(start),
        valid_fov(width),
        angles.len() > 0,
    ensures
        0 <= k < angles.len(),
        count_visible(angles, start, width) <= count_visible(angles, angles[k], width),
{
    let m = lemma_nearest_target(angles, start);
    // every target seen from `start` lies no nearer to it than target `m`,
    // so it is at most `width` past target `m`
    lemma_count_monotone(angles, start, width, angles[m], width);
    m
}

/// `start` and `visible` describe the best placement of a field of view of
/// width `fov` over the targets at `angles`:
/// the window starts at a target, sees `visible` targets, no window placed
/// anywhere on the circle sees more, and among the targets whose window
/// sees as many, `start` is the smallest angle.
pub open spec fn is_best_window(angles: Seq<int>, fov: int, start: int, visible: int) -> bool {
    &&& angles.contains(start)
    &&& visible == count_visible(angles, start, fov)
    &&& forall|a: int| valid_angle(a) ==> #[trigger] count_visible(angles, a, fov) <= visible
    &&& forall|k: int|
        0 <= k < angles.len() && count_visible(angles, #[trigger] angles[k], fov) == visible
            ==> start <= angles[k]
}

/// The best placement for one arrangement of the targets is the best
/// placement for every other arrangement of them.
pub proof fn lemma_best_window_permutation(
    a: Seq<int>,
    b: Seq<int>,
    fov: int,
    start: int,
    visible: int,
)
    requires
        a.to_multiset() == b.to_multiset(),
        is_best_window(a, fov, start, visible),
    ensures
        is_best_window(b, fov, start, visible),
{
    lemma_contains_permutation(a, b, start);
    lemma_count_permutation(a, b, start, fov);
    assert forall|x: int| valid_angle(x) implies #[trigger] count_visible(b, x, fov) <= visible by {
        lemma_count_permutation(a, b, x, fov);
    }
    assert forall|k: int|
        0 <= k < b.len() && count_visible(b, #[trigger] b[k], fov) == visible implies start
        <= b[k] by {
        lemma_contains_permutation(a, b, b[k]);
        let m = choose|m: int| 0 <= m < a.len() && a[m] == b[k];
        lemma_count_permutation(a, b, a[m], fov);
    }
}

} // verus!
