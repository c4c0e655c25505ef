//! The coverage scanner: a two-pointer sweep over the sorted bearings.
//!
//! The circle is cut open by laying the sorted bearings out twice, the second
//! copy shifted by a full turn. A window that starts at a target and runs
//! past the full turn then covers one unbroken stretch of that working array.

use vstd::prelude::*;
use crate::angle::{FULL_TURN, valid_angle, valid_angles, valid_fov};
use crate::sorted::{SortedAngleSequence, ascending};
use crate::window::{
    count_visible, in_window, is_best_window, lemma_count_all, lemma_count_concat,
    lemma_count_none, lemma_window_can_start_at_target,
};

verus! {

/// The placement that the scan found: where the window starts and how many
/// targets it sees.
#[derive(Clone, Copy, Debug, PartialEq, Eq, Structural)]
pub struct BestWindow {
    /// Start angle of the window, in angle units.
    pub start: u64,
    /// Number of targets inside the window, both ends included.
    pub visible: usize,
}

/// Entry `k` of the working array: the sorted bearings, then the same
/// bearings again, each one full turn further on.
spec fn unrolled(angles: Seq<int>, k: int) -> int {
    if k < angles.len() {
        angles[k]
    } else {
        angles[k - angles.len()] + FULL_TURN
    }
}

/// What the sweep's stretch `[i, j)` of the working array says about the
/// window that starts at target `i`: every entry of the stretch is a
/// different target inside the window, and when no earlier target shares the
/// bearing of target `i`, the stretch holds every target inside the window.
proof fn lemma_sweep_count(angles: Seq<int>, fov: int, i: int, j: int)
    requires
        ascending(angles),
        valid_angles(angles),
        valid_fov(fov),
        0 <= i < angles.len(),
        i < j <= i + angles.len(),
        forall|k: int| i <= k < j ==> #[trigger] unrolled(angles, k) <= angles[i] + fov,
        j < i + angles.len() ==> unrolled(angles, j) > angles[i] + fov,
    ensures
        j - i <= count_visible(angles, angles[i], fov),
        (i == 0 || angles[i - 1] < angles[i]) ==> j - i == count_visible(angles, angles[i], fov),
{
    let n = angles.len() as int;
    let start = angles[i];
    // Targets [i, e) are seen directly, targets [0, w) are seen after the wrap.
    let e = if j <= n { j } else { n };
    let w = if j <= n { 0 } else { j - n };
    let wrapped = angles.subrange(0, w);
    let before = angles.subrange(w, i);
    let direct = angles.subrange(i, e);
    let beyond = angles.subrange(e, n);
    assert(angles =~= wrapped + before + direct + beyond);
    lemma_count_concat(wrapped + before + direct, beyond, start, fov);
    lemma_count_concat(wrapped + before, direct, start, fov);
    lemma_count_concat(wrapped, before, start, fov);

    assert forall|k: int| 0 <= k < wrapped.len() implies in_window(
        #[trigger] wrapped[k],
        start,
        fov,
    ) by {
        assert(unrolled(angles, k + n) <= start + fov);
    }
    lemma_count_all(wrapped, start, fov);

    assert forall|k: int| 0 <= k < direct.len() implies in_window(
        #[trigger] direct[k],
        start,
        fov,
    ) by {
        assert(unrolled(angles, i + k) <= start + fov);
    }
    lemma_count_all(direct, start, fov);

    if i == 0 || angles[i - 1] < angles[i] {
        lemma_count_none(before, start, fov);

        lemma_count_none(beyond, start, fov);
    }
}

/// Finds the best placement of a field of view of width `fov` over a
/// non-empty batch of sorted bearings.
///
/// Every target is tried as the start of the window, in ascending order,
/// while one boundary pointer moves forward through the working array and
/// never back. The first start that reaches the largest count wins.
/// A target exactly on either end of the window is inside it, and a window
/// of a full turn sees every target once.
pub fn scan_coverage(sorted: &SortedAngleSequence, fov: u64) -> (best: BestWindow)
    requires
        sorted@.len() > 0,
        fov <= FULL_TURN,
    ensures
        is_best_window(sorted@, fov as int, best.start as int, best.visible as int),
{
    let n: usize = sorted.len();
    let ghost s = sorted@;

    let mut angles: Vec<u64> = Vec::new();
    let mut k: usize = 0;
    while k < n
        invariant
            k <= n,
            n == s.len(),
            s == sorted@,
            angles@.len() == k,
            forall|m: int| 0 <= m < k ==> (#[trigger] angles@[m]) as int == s[m],
        decreases n - k,
    {
        angles.push(sorted.angle(k));
        k += 1;
    }
    k = 0;
    while k < n
        invariant
            k <= n,
            n == s.len(),
            s == sorted@,
            angles@.len() == n + k,
            forall|m: int| 0 <= m < n + k ==> (#[trigger] angles@[m]) as int == unrolled(s, m),
        decreases n - k,
    {
        angles.push(sorted.angle(k) + FULL_TURN);
        k += 1;
    }

    let mut max_visible: usize = 0;
    let mut best_start: u64 = 0;
    let mut j: usize = 0;
    let mut i: usize = 0;
    let ghost mut b: int = 0;
    while i < n
        invariant
            n == s.len(),
            n > 0,
            ascending(s),
            valid_angles(s),
            fov <= FULL_TURN,
            angles.len() == 2 * n,
            forall|m: int| 0 <= m < 2 * n ==> (#[trigger] angles@[m]) as int == unrolled(s, m),
            i <= n,
            i <= j <= i + n,
            i < n ==> forall|m: int| 0 <= m < j ==> #[trigger] unrolled(s, m) <= s[i as int] + fov,
            i == 0 ==> max_visible == 0,
            i > 0 ==> 0 <= b < i && best_start == s[b] && max_visible == count_visible(
                s,
                s[b],
                fov as int,
            ),
            forall|m: int|
                0 <= m < i ==> count_visible(s, #[trigger] s[m], fov as int) <= max_visible,
            forall|m: int|
                0 <= m < b ==> count_visible(s, #[trigger] s[m], fov as int) < max_visible,
        decreases n - i,
    {
        let start_angle: u64 = angles[i];
        let end_angle: u64 = start_angle + fov;

        while j < i + n && angles[j] <= end_angle
            invariant
                n == s.len(),
                i < n,
                i <= j <= i + n,
                angles.len() == 2 * n,
                forall|m: int| 0 <= m < 2 * n ==> (#[trigger] angles@[m]) as int == unrolled(s, m),
                end_angle == s[i as int] + fov,
                forall|m: int| 0 <= m < j ==> #[trigger] unrolled(s, m) <= end_angle,
            decreases i + n - j,
        {
            j += 1;
        }
        let visible: usize = j - i;

        proof {
            // The stretch counts the whole window unless an earlier target
            // shares this bearing; that target's window was counted already.
            lemma_sweep_count(s, fov as int, i as int, j as int);
        }
        if visible > max_visible {
            max_visible = visible;
            best_start = start_angle;
            proof {
                b = i as int;
            }
        }
        i += 1;
    }

    proof {
        assert(s.contains(best_start as int));
        assert forall|a: int| valid_angle(a) implies #[trigger] count_visible(s, a, fov as int)
            <= max_visible by {
            let k = lemma_window_can_start_at_target(s, a, fov as int);
        }
    }
    BestWindow { start: best_start, visible: max_visible }
}

} // verus!
