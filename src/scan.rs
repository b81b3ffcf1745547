//! The depth search along one pixel column.
use crate::grid::Voxel;
use vstd::prelude::*;

verus! {

/// The probe gives one outcome for each voxel: every voxel may be probed, and
/// probing the same voxel twice gives the same outcome.
pub open spec fn is_probe<F: Fn(Voxel) -> Option<i64>>(probe: F) -> bool {
    &&& forall|v: Voxel| #[trigger] probe.requires((v,))
    &&& forall|v: Voxel, a: Option<i64>, b: Option<i64>|
        #[trigger] probe.ensures((v,), a) && #[trigger] probe.ensures((v,), b) ==> a == b
}

/// The outcome that a probe gives for a voxel.
pub open spec fn probe_out<F: Fn(Voxel) -> Option<i64>>(probe: F, v: Voxel) -> Option<i64> {
    choose|o: Option<i64>| probe.ensures((v,), o)
}

/// The outcomes of the voxels `(x, y, 0)`, `(x, y, 1)`, ... in front of the
/// cube's middle plane, in order of depth.
pub open spec fn column_outcomes<F: Fn(Voxel) -> Option<i64>>(
    probe: F,
    x: usize,
    y: usize,
    side: int,
) -> Seq<Option<i64>> {
    Seq::new((side / 2) as nat, |z: int| probe_out(probe, Voxel { x, y, z: z as usize }))
}

/// The first bounded outcome of a column, front to back; `None` when every
/// depth escapes.
pub open spec fn first_bounded(outs: Seq<Option<i64>>) -> Option<i64>
    decreases outs.len(),
{
    if outs.len() == 0 {
        None
    } else if outs[0] is Some {
        outs[0]
    } else {
        first_bounded(outs.drop_first())
    }
}

/// Depth `k` holds the first bounded outcome of the column.
pub open spec fn is_first_hit(outs: Seq<Option<i64>>, k: int) -> bool {
    &&& 0 <= k < outs.len()
    &&& outs[k] is Some
    &&& forall|i: int| 0 <= i < k ==> outs[i] is None
}

/// The column's result is the outcome at its first bounded depth.
pub proof fn lemma_first_hit(outs: Seq<Option<i64>>, k: int)
    requires
        is_first_hit(outs, k),
    ensures
        first_bounded(outs) == outs[k],
    decreases k,
{
    if k > 0 {
        assert(outs[0] is None);
        let rest = outs.drop_first();
        assert forall|i: int| 0 <= i < k - 1 implies rest[i] is None by {
            assert(outs[i + 1] is None);
        }
        lemma_first_hit(rest, k - 1);
    }
}

/// A column in which every depth escapes has no result.
pub proof fn lemma_no_hit(outs: Seq<Option<i64>>)
    requires
        forall|i: int| 0 <= i < outs.len() ==> outs[i] is None,
    ensures
        first_bounded(outs) is None,
    decreases outs.len(),
{
    if outs.len() > 0 {
        assert(outs[0] is None);
        let rest = outs.drop_first();
        assert forall|i: int| 0 <= i < rest.len() implies rest[i] is None by {
            assert(outs[i + 1] is None);
        }
        lemma_no_hit(rest);
    }
}

/// The scan stops at the first bounded depth: once depth `k` is found bounded,
/// the outcomes behind it have no bearing on the column's result, so they
/// need not be inspected.
pub proof fn lemma_scan_stops_at_first_hit(a: Seq<Option<i64>>, b: Seq<Option<i64>>, k: int)
    requires
        is_first_hit(a, k),
        k < b.len(),
        forall|i: int| 0 <= i <= k ==> a[i] == b[i],
    ensures
        is_first_hit(b, k),
        first_bounded(a) == first_bounded(b),
        first_bounded(a) == a[k],
{
    lemma_first_hit(a, k);
    lemma_first_hit(b, k);
}

/// Scans the voxels `(x, y, z)` for `z` from `0` up to `side / 2 - 1` and
/// returns the outcome of the first bounded one, or `None` when all escape.
/// No voxel behind the first bounded one is probed.
pub fn scan_column<F: Fn(Voxel) -> Option<i64>>(probe: &F, x: usize, y: usize, side: usize) -> (r:
    Option<i64>)
    requires
        is_probe(*probe),
    ensures
        r == first_bounded(column_outcomes(*probe, x, y, side as int)),
{
    let half: usize = side / 2;
    let ghost outs = column_outcomes(*probe, x, y, side as int);
    let mut z: usize = 0;
    while z < half
        invariant
            z <= half,
            half == side / 2,
            is_probe(*probe),
            outs == column_outcomes(*probe, x, y, side as int),
            forall|i: int| 0 <= i < z ==> outs[i] is None,
        decreases half - z,
    {
        let v = Voxel { x, y, z };
        let o = probe(v);
        assert(outs[z as int] == o);
        if o.is_some() {
            proof {
                lemma_first_hit(outs, z as int);
            }
            return o;
        }
        z = z + 1;
    }
    proof {
        lemma_no_hit(outs);
    }
    None
}

} // verus!
