use vstd::prelude::*;

use crate::cluster::{member_indices, member_points, Cluster};
use crate::kmeans::{clusters_match, views};
use crate::lloyd::{labels_of, lloyd, members_of, moved_all, nearest_upto};
use crate::metric::DistanceMetric;
use crate::point::Point;

verus! {

/// How many points the first `k` labels hold in all.
pub open spec fn count_upto(labels: Seq<nat>, k: nat) -> nat
    decreases k,
{
    if k == 0 {
        0
    } else {
        count_upto(labels, (k - 1) as nat) + members_of(labels, (k - 1) as nat).len()
    }
}

/// How many members the first `j` clusters hold in all.
pub open spec fn total_upto<const N: usize>(cs: Seq<Cluster<N>>, j: nat) -> nat
    decreases j,
{
    if j == 0 {
        0
    } else {
        total_upto(cs, (j - 1) as nat) + cs[j - 1]@.len()
    }
}

/// Every index listed under label `j` is in range, labelled `j`, and the
/// list ascends.
pub proof fn lemma_members_of_labelled(labels: Seq<nat>, j: nat)
    requires
        labels.len() <= usize::MAX,
    ensures
        forall|q: int|
            0 <= q < members_of(labels, j).len() ==> {
                &&& (#[trigger] members_of(labels, j)[q]) < labels.len()
                &&& labels[members_of(labels, j)[q] as int] == j
            },
        forall|a: int, b: int|
            0 <= a < b < members_of(labels, j).len() ==> members_of(labels, j)[a] < members_of(
                labels,
                j,
            )[b],
    decreases labels.len(),
{
    if labels.len() > 0 {
        let init = labels.drop_last();
        lemma_members_of_labelled(init, j);
        let prev = members_of(init, j);
        assert forall|q: int| 0 <= q < prev.len() implies labels[prev[q] as int] == j by {
            assert(labels[prev[q] as int] == init[prev[q] as int]);
        };
    }
}

proof fn lemma_count_push(init: Seq<nat>, l: nat, k: nat)
    ensures
        count_upto(init.push(l), k) == count_upto(init, k) + if l < k {
            1nat
        } else {
            0nat
        },
    decreases k,
{
    if k > 0 {
        lemma_count_push(init, l, (k - 1) as nat);
        assert(init.push(l).drop_last() =~= init);
    }
}

/// With every label below `k`, the first `k` labels hold every point once.
pub proof fn lemma_count_all(labels: Seq<nat>, k: nat)
    requires
        forall|i: int| 0 <= i < labels.len() ==> labels[i] < k,
    ensures
        count_upto(labels, k) == labels.len(),
    decreases labels.len(),
{
    if labels.len() == 0 {
        lemma_count_empty(labels, k);
    } else {
        let init = labels.drop_last();
        lemma_count_all(init, k);
        lemma_count_push(init, labels.last(), k);
        assert(init.push(labels.last()) =~= labels);
    }
}

proof fn lemma_count_empty(labels: Seq<nat>, k: nat)
    requires
        labels.len() == 0,
    ensures
        count_upto(labels, k) == 0,
    decreases k,
{
    if k > 0 {
        lemma_count_empty(labels, (k - 1) as nat);
    }
}

proof fn lemma_total_is_count<const N: usize>(
    cs: Seq<Cluster<N>>,
    points: Seq<Point<N>>,
    labels: Seq<nat>,
    j: nat,
)
    requires
        clusters_match(cs, points, labels),
        j <= cs.len(),
    ensures
        total_upto(cs, j) == count_upto(labels, j),
    decreases j,
{
    if j > 0 {
        lemma_total_is_count(cs, points, labels, (j - 1) as nat);
        assert(member_indices(cs[j - 1]@) == members_of(labels, (j - 1) as nat));
    }
}

/// The clusters of an assignment partition the points: their sizes add up
/// to the number of points, every member index is a point's index, and no
/// index is in two clusters or twice in one.
pub proof fn lemma_clusters_partition<const N: usize>(
    cs: Seq<Cluster<N>>,
    points: Seq<Point<N>>,
    labels: Seq<nat>,
)
    requires
        clusters_match(cs, points, labels),
        labels.len() == points.len(),
        points.len() <= usize::MAX,
        forall|i: int| 0 <= i < labels.len() ==> labels[i] < cs.len(),
    ensures
        total_upto(cs, cs.len()) == points.len(),
        forall|j1: int, q1: int, j2: int, q2: int|
            0 <= j1 < cs.len() && 0 <= j2 < cs.len() && 0 <= q1 < cs[j1]@.len() && 0 <= q2
                < cs[j2]@.len() && (j1 != j2 || q1 != q2) ==> #[trigger] cs[j1]@[q1].0
                != #[trigger] cs[j2]@[q2].0,
{
    lemma_total_is_count(cs, points, labels, cs.len());
    lemma_count_all(labels, cs.len());
    assert forall|j1: int, q1: int, j2: int, q2: int|
        0 <= j1 < cs.len() && 0 <= j2 < cs.len() && 0 <= q1 < cs[j1]@.len() && 0 <= q2
            < cs[j2]@.len() && (j1 != j2 || q1 != q2) implies #[trigger] cs[j1]@[q1].0
        != #[trigger] cs[j2]@[q2].0 by {
        lemma_members_of_labelled(labels, j1 as nat);
        lemma_members_of_labelled(labels, j2 as nat);
        assert(member_indices(cs[j1]@) == members_of(labels, j1 as nat));
        assert(member_indices(cs[j2]@) == members_of(labels, j2 as nat));
        assert(member_indices(cs[j1]@)[q1] == cs[j1]@[q1].0);
        assert(member_indices(cs[j2]@)[q2] == cs[j2]@[q2].0);
        if j1 == j2 {
            if q1 < q2 {
                assert(members_of(labels, j1 as nat)[q1] < members_of(labels, j1 as nat)[q2]);
            } else {
                assert(members_of(labels, j1 as nat)[q2] < members_of(labels, j1 as nat)[q1]);
            }
        }
    };
}

proof fn lemma_nearest_in_range(m: DistanceMetric, p: Seq<u32>, cents: Seq<Seq<u32>>, n: nat)
    requires
        n >= 1,
    ensures
        nearest_upto(m, p, cents, n) < n,
    decreases n,
{
    if n > 1 {
        lemma_nearest_in_range(m, p, cents, (n - 1) as nat);
    }
}

/// Lloyd's refinement labels every point with the index of one of the
/// centroids.
pub proof fn lemma_lloyd_labels_in_range(
    m: DistanceMetric,
    pts: Seq<Seq<u32>>,
    cents: Seq<Seq<u32>>,
    n: nat,
    tol: nat,
    rounds: nat,
)
    requires
        cents.len() >= 1,
    ensures
        lloyd(m, pts, cents, n, tol, rounds).0.len() == pts.len(),
        forall|i: int|
            0 <= i < pts.len() ==> #[trigger] lloyd(m, pts, cents, n, tol, rounds).0[i] < cents.len(),
    decreases rounds,
{
    let labels = labels_of(m, pts, cents);
    let next = moved_all(pts, labels, cents, n);
    assert forall|i: int| 0 <= i < pts.len() implies labels[i] < cents.len() by {
        lemma_nearest_in_range(m, pts[i], cents, cents.len());
    };
    if rounds > 1 {
        lemma_lloyd_labels_in_range(m, pts, next, n, tol, (rounds - 1) as nat);
    }
}

/// The clusters that Lloyd's refinement returns from at least one centroid
/// partition the points: sizes add up to the number of points and no index
/// is in two clusters.
pub proof fn lemma_refined_partition<const N: usize>(
    m: DistanceMetric,
    points: Seq<Point<N>>,
    cents: Seq<Seq<u32>>,
    tol: nat,
    rounds: nat,
    cs: Seq<Cluster<N>>,
)
    requires
        cents.len() >= 1,
        cs.len() == cents.len(),
        points.len() <= usize::MAX,
        clusters_match(cs, points, lloyd(m, views(points), cents, N as nat, tol, rounds).0),
    ensures
        total_upto(cs, cs.len()) == points.len(),
        forall|j1: int, q1: int, j2: int, q2: int|
            0 <= j1 < cs.len() && 0 <= j2 < cs.len() && 0 <= q1 < cs[j1]@.len() && 0 <= q2
                < cs[j2]@.len() && (j1 != j2 || q1 != q2) ==> #[trigger] cs[j1]@[q1].0
                != #[trigger] cs[j2]@[q2].0,
{
    let labels = lloyd(m, views(points), cents, N as nat, tol, rounds).0;
    lemma_lloyd_labels_in_range(m, views(points), cents, N as nat, tol, rounds);
    lemma_clusters_partition(cs, points, labels);
}

proof fn lemma_members_of_zero(labels: Seq<nat>)
    requires
        labels.len() <= usize::MAX,
        forall|i: int| 0 <= i < labels.len() ==> labels[i] == 0,
    ensures
        members_of(labels, 0) =~= Seq::new(labels.len(), |i: int| i as usize),
    decreases labels.len(),
{
    if labels.len() > 0 {
        lemma_members_of_zero(labels.drop_last());
    }
}

/// With a single cluster, it holds every point, in input order; its
/// centroid is therefore the mean of all the points.
pub proof fn lemma_single_cluster<const N: usize>(
    cs: Seq<Cluster<N>>,
    points: Seq<Point<N>>,
    labels: Seq<nat>,
)
    requires
        clusters_match(cs, points, labels),
        cs.len() == 1,
        labels.len() == points.len(),
        points.len() <= usize::MAX,
        forall|i: int| 0 <= i < labels.len() ==> labels[i] < 1,
    ensures
        member_indices(cs[0]@) == Seq::new(points.len(), |i: int| i as usize),
        member_points(cs[0]@) == views(points),
{
    lemma_members_of_zero(labels);
    assert(member_indices(cs[0]@) == members_of(labels, 0));
    assert(member_indices(cs[0]@).len() == cs[0]@.len());
    assert forall|q: int| 0 <= q < cs[0]@.len() implies cs[0]@[q].0 == q by {
        assert(member_indices(cs[0]@)[q] == cs[0]@[q].0);
        assert(members_of(labels, 0)[q] == q as usize);
    };
    assert(member_points(cs[0]@) =~= views(points));
}

/// Clusters are fixed by the assignment: two results that match the same
/// labels over the same points are equal, member for member.
pub proof fn lemma_clusters_determined<const N: usize>(
    a: Seq<Cluster<N>>,
    b: Seq<Cluster<N>>,
    points: Seq<Point<N>>,
    labels: Seq<nat>,
)
    requires
        clusters_match(a, points, labels),
        clusters_match(b, points, labels),
        a.len() == b.len(),
    ensures
        forall|j: int| 0 <= j < a.len() ==> #[trigger] a[j]@ == b[j]@,
{
    assert forall|j: int| 0 <= j < a.len() implies #[trigger] a[j]@ == b[j]@ by {
        assert(member_indices(a[j]@) == member_indices(b[j]@));
        assert(a[j]@.len() == member_indices(a[j]@).len());
        assert forall|q: int| 0 <= q < a[j]@.len() implies a[j]@[q] == b[j]@[q] by {
            assert(member_indices(a[j]@)[q] == a[j]@[q].0);
            assert(member_indices(b[j]@)[q] == b[j]@[q].0);
        };
        assert(a[j]@ =~= b[j]@);
    };
}

} // verus!
