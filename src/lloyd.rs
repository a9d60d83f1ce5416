use vstd::prelude::*;

use crate::cluster::mean_of;
use crate::metric::DistanceMetric;

verus! {

/// Index of the nearest of the first `n` centroids to `p`; on a tie the
/// lowest index wins.
pub open spec fn nearest_upto(m: DistanceMetric, p: Seq<u32>, cents: Seq<Seq<u32>>, n: nat) -> nat
    decreases n,
{
    if n <= 1 {
        0
    } else {
        let j = nearest_upto(m, p, cents, (n - 1) as nat);
        if m.spec_measure(p, cents[n - 1]) < m.spec_measure(p, cents[j as int]) {
            (n - 1) as nat
        } else {
            j
        }
    }
}

/// The cluster each point falls into: that of its nearest centroid.
pub open spec fn labels_of(m: DistanceMetric, pts: Seq<Seq<u32>>, cents: Seq<Seq<u32>>) -> Seq<
    nat,
> {
    Seq::new(pts.len(), |i: int| nearest_upto(m, pts[i], cents, cents.len()))
}

/// The indices of the points labelled `j`, ascending.
pub open spec fn members_of(labels: Seq<nat>, j: nat) -> Seq<usize>
    decreases labels.len(),
{
    if labels.len() == 0 {
        Seq::empty()
    } else {
        let prev = members_of(labels.drop_last(), j);
        if labels.last() == j {
            prev.push((labels.len() - 1) as usize)
        } else {
            prev
        }
    }
}

/// The points found at the given indices.
pub open spec fn gather(pts: Seq<Seq<u32>>, idx: Seq<usize>) -> Seq<Seq<u32>> {
    idx.map_values(|i: usize| pts[i as int])
}

/// The new position of centroid `j`: the mean of its members, or where it
/// was if it has none.
pub open spec fn moved(pts: Seq<Seq<u32>>, labels: Seq<nat>, cents: Seq<Seq<u32>>, j: int, n: nat) -> Seq<u32> {
    let ms = members_of(labels, j as nat);
    if ms.len() == 0 {
        cents[j]
    } else {
        mean_of(gather(pts, ms), n)
    }
}

pub open spec fn moved_all(pts: Seq<Seq<u32>>, labels: Seq<nat>, cents: Seq<Seq<u32>>, n: nat) -> Seq<Seq<u32>> {
    Seq::new(cents.len(), |j: int| moved(pts, labels, cents, j, n))
}

/// Every centroid moved by less than `tol`.
pub open spec fn settled(m: DistanceMetric, old: Seq<Seq<u32>>, new: Seq<Seq<u32>>, tol: nat) -> bool {
    forall|j: int| 0 <= j < old.len() ==> m.spec_measure(old[j], new[j]) < tol
}

/// Lloyd's refinement from `cents`, for at most `rounds` rounds: the final
/// labels, the number of rounds run, and whether it stopped because the
/// centroids settled.
pub open spec fn lloyd(
    m: DistanceMetric,
    pts: Seq<Seq<u32>>,
    cents: Seq<Seq<u32>>,
    n: nat,
    tol: nat,
    rounds: nat,
) -> (Seq<nat>, nat, bool)
    decreases rounds,
{
    let labels = labels_of(m, pts, cents);
    let next = moved_all(pts, labels, cents, n);
    if settled(m, cents, next, tol) {
        (labels, 1, true)
    } else if rounds <= 1 {
        (labels, 1, false)
    } else {
        let r = lloyd(m, pts, next, n, tol, (rounds - 1) as nat);
        (r.0, r.1 + 1, r.2)
    }
}

/// The refinement runs at least one round and at most `rounds`; when it runs
/// fewer, it stopped because every centroid moved by less than the tolerance.
pub proof fn lemma_lloyd_terminates(
    m: DistanceMetric,
    pts: Seq<Seq<u32>>,
    cents: Seq<Seq<u32>>,
    n: nat,
    tol: nat,
    rounds: nat,
)
    requires
        rounds >= 1,
    ensures
        1 <= lloyd(m, pts, cents, n, tol, rounds).1 <= rounds,
        lloyd(m, pts, cents, n, tol, rounds).2 || lloyd(m, pts, cents, n, tol, rounds).1 == rounds,
    decreases rounds,
{
    let labels = labels_of(m, pts, cents);
    let next = moved_all(pts, labels, cents, n);
    if !settled(m, cents, next, tol) && rounds > 1 {
        lemma_lloyd_terminates(m, pts, next, n, tol, (rounds - 1) as nat);
    }
}

} // verus!
