//! The integer half of the ambient-occlusion estimate.
//!
//! At a confirmed surface hit the renderer casts a fixed grid of hemisphere
//! sample rays and asks, for each, only whether anything in the scene is in
//! the way.  The estimate returned is `(total - occluded) / total`, the
//! fraction of rays that escaped — a value pinned to `[0, 1]` because the
//! unoccluded count can never exceed the number of rays cast.  This module
//! verifies that counting step: the geometry that decides each individual
//! ray lives outside the library and hands in one boolean per sample ray.
//!
//! It also holds the one discrete decision inside the estimator's setup: the
//! choice of the world reference axis from which the orthonormal basis around
//! the surface normal is built.

use vstd::prelude::*;

verus! {

/// How many of the sample-ray verdicts in `s` were unoccluded (`false`).
pub open spec fn unoccluded_count(s: Seq<bool>) -> nat
    decreases s.len(),
{
    if s.len() == 0 {
        0
    } else {
        unoccluded_count(s.drop_last()) + if s.last() { 0nat } else { 1nat }
    }
}

/// How many of the sample-ray verdicts in `s` found something in the way
/// (`true`).
pub open spec fn occluded_count(s: Seq<bool>) -> nat
    decreases s.len(),
{
    if s.len() == 0 {
        0
    } else {
        occluded_count(s.drop_last()) + if s.last() {
            1nat
        } else {
            0nat
        }
    }
}

/// The unoccluded count never exceeds the number of rays cast, so the
/// occlusion estimate `unoccluded / total` always lies in `[0, 1]`
/// inclusive, for any hit point and any finite sample count.
pub proof fn lemma_estimate_in_unit_range(s: Seq<bool>)
    ensures
        unoccluded_count(s) <= s.len(),
    decreases s.len(),
{
    if s.len() > 0 {
        lemma_estimate_in_unit_range(s.drop_last());
    }
}

/// Counting escaped rays and counting blocked rays are two accounts of the
/// same casts: the estimate `unoccluded / total` equals
/// `(total - occluded) / total`.
pub proof fn lemma_unoccluded_complements_occluded(s: Seq<bool>)
    ensures
        unoccluded_count(s) + occluded_count(s) == s.len(),
    decreases s.len(),
{
    if s.len() > 0 {
        lemma_unoccluded_complements_occluded(s.drop_last());
    }
}

/// Counts the unoccluded sample rays of one occlusion estimate, given one
/// occlusion verdict (`true` = something was in the way) per ray cast.
pub fn count_unoccluded(hits: &Vec<bool>) -> (unocc: usize)
    ensures
        unocc == unoccluded_count(hits@),
        unocc <= hits.len(),
{
    let mut unocc: usize = 0;
    let mut i: usize = 0;
    while i < hits.len()
        invariant
            i <= hits.len(),
            unocc == unoccluded_count(hits@.subrange(0, i as int)),
            unocc <= i,
        decreases hits.len() - i,
    {
        if !hits[i] {
            unocc = unocc + 1;
        }
        proof {
            assert(hits@.subrange(0, i + 1).drop_last() =~= hits@.subrange(0, i as int));
        }
        i = i + 1;
    }
    proof {
        assert(hits@.subrange(0, hits@.len() as int) =~= hits@);
    }
    unocc
}

/// The three world axes a hemisphere basis can be anchored to.
#[derive(Clone, Copy, PartialEq, Eq, Structural, Debug)]
pub enum Axis {
    X,
    Y,
    Z,
}

/// Picks the reference axis for the orthonormal basis around a surface
/// normal: the first world axis whose component along the normal has absolute
/// value below the 0.6 threshold, falling back to X when none qualifies.
/// Each flag reports whether the corresponding component is below the
/// threshold; the caller evaluates the comparisons on the normal itself.
pub fn reference_axis(x_below: bool, y_below: bool, z_below: bool) -> (axis: Axis)
    ensures
        x_below ==> axis == Axis::X,
        (!x_below && y_below) ==> axis == Axis::Y,
        (!x_below && !y_below && z_below) ==> axis == Axis::Z,
        (!x_below && !y_below && !z_below) ==> axis == Axis::X,
{
    if x_below {
        Axis::X
    } else if y_below {
        Axis::Y
    } else if z_below {
        Axis::Z
    } else {
        Axis::X
    }
}

} // verus!
