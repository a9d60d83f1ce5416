use rand::rngs::StdRng;
use vstd::prelude::*;
use vstd::set_lib::{lemma_int_range, lemma_len_subset, set_int_range};

use crate::cluster::{member_indices, member_points, Cluster};
use crate::lloyd::{gather, labels_of, lloyd, members_of, moved, moved_all, nearest_upto, settled};
use crate::metric::{lemma_measure_bound, DistanceMetric, MAX_SQUARE};
use crate::point::Point;
use crate::random::{alias_table, copy_rng, draw_index, uniform_index};

verus! {

/// Why a clustering could not be set up or run.
#[derive(Clone, Copy, Debug, PartialEq, Eq, Structural)]
pub enum KmeansError {
    /// The number of clusters is zero.
    InvalidClusterCount,
    /// The iteration budget is zero.
    InvalidMaxIterations,
    /// The tolerance is zero.
    InvalidTolerance,
    /// No seed could be drawn from the distance weights.
    SamplingError,
}

/// The coordinates of each point.
pub open spec fn views<const N: usize>(ps: Seq<Point<N>>) -> Seq<Seq<u32>> {
    ps.map_values(|p: Point<N>| p@)
}

/// Labels as natural numbers.
pub open spec fn nats(s: Seq<usize>) -> Seq<nat> {
    s.map_values(|x: usize| x as nat)
}

/// Cluster `j` holds, as `(index, point)` pairs in ascending index order,
/// exactly the points labelled `j`.
pub open spec fn clusters_match<const N: usize>(
    cs: Seq<Cluster<N>>,
    points: Seq<Point<N>>,
    labels: Seq<nat>,
) -> bool {
    forall|j: int|
        0 <= j < cs.len() ==> {
            &&& #[trigger] member_indices(cs[j]@) == members_of(labels, j as nat)
            &&& forall|q: int|
                0 <= q < cs[j]@.len() ==> (cs[j]@[q].0 < points.len() && cs[j]@[q].1
                    == points[cs[j]@[q].0 as int])
        }
}

/// Distance from `p` to the nearest of the first `n` centroids.
pub open spec fn min_dist_upto(m: DistanceMetric, p: Seq<u32>, cents: Seq<Seq<u32>>, n: nat) -> nat
    decreases n,
{
    if n <= 1 {
        m.spec_measure(p, cents[0])
    } else {
        let d = m.spec_measure(p, cents[n - 1]);
        let prev = min_dist_upto(m, p, cents, (n - 1) as nat);
        if d < prev {
            d
        } else {
            prev
        }
    }
}

/// The nearest distance is at most the distance to any one centroid.
pub proof fn lemma_min_dist_le(m: DistanceMetric, p: Seq<u32>, cents: Seq<Seq<u32>>, n: nat, l: int)
    requires
        0 <= l < n,
    ensures
        min_dist_upto(m, p, cents, n) <= m.spec_measure(p, cents[l]),
    decreases n,
{
    if n > 1 && l < n - 1 {
        lemma_min_dist_le(m, p, cents, (n - 1) as nat, l);
    }
}

/// A point at a positive distance from every centroid is at a positive
/// distance from the nearest one.
pub proof fn lemma_min_dist_positive(m: DistanceMetric, p: Seq<u32>, cents: Seq<Seq<u32>>, n: nat)
    requires
        forall|l: int| 0 <= l < n ==> m.spec_measure(p, #[trigger] cents[l]) > 0,
    ensures
        min_dist_upto(m, p, cents, n) > 0 || n == 0,
    decreases n,
{
    if n > 1 {
        lemma_min_dist_positive(m, p, cents, (n - 1) as nat);
    }
}

/// Fewer than `n` indices leave some index below `n` out.
proof fn lemma_index_left_out(s: Seq<usize>, n: nat) -> (i: int)
    requires
        s.len() < n,
    ensures
        0 <= i < n,
        forall|l: int| 0 <= l < s.len() ==> s[l] != i,
{
    broadcast use vstd::seq_lib::seq_to_set_is_finite;

    let t = s.map_values(|x: usize| x as int);
    t.lemma_cardinality_of_set();
    lemma_int_range(0, n as int);
    if forall|i: int| 0 <= i < n ==> #[trigger] t.to_set().contains(i) {
        assert(set_int_range(0, n as int).subset_of(t.to_set()));
        lemma_len_subset(set_int_range(0, n as int), t.to_set());
        assert(false);
    }
    let i = choose|i: int| 0 <= i < n && !t.to_set().contains(i);
    assert forall|l: int| 0 <= l < s.len() implies s[l] != i by {
        if s[l] == i {
            assert(t[l] == i);
            assert(t.contains(i));
        }
    };
    i
}

/// Seeding cannot fail: there are few enough points, pairwise apart, with
/// distances small enough for the sampler's weights.
pub open spec fn seedable(m: DistanceMetric, pts: Seq<Seq<u32>>, n: nat) -> bool {
    &&& 0 < pts.len() <= u32::MAX
    &&& n * MAX_SQUARE <= u128::MAX / (pts.len() as u128)
    &&& forall|i: int| 0 <= i < pts.len() ==> (#[trigger] pts[i]).len() == n
    &&& forall|i: int, j: int|
        0 <= i < pts.len() && 0 <= j < pts.len() && i != j ==> m.spec_measure(
            #[trigger] pts[i],
            #[trigger] pts[j],
        ) > 0
}

/// Seed indices for `k` centroids, each seed at a positive distance from
/// every seed before it.
pub open spec fn spread_seeds(m: DistanceMetric, pts: Seq<Seq<u32>>, s: Seq<usize>, k: nat) -> bool {
    &&& s.len() == k
    &&& forall|j: int| 0 <= j < s.len() ==> s[j] < pts.len()
    &&& forall|j: int, l: int|
        0 <= l < j < s.len() ==> m.spec_measure(#[trigger] pts[s[j] as int], #[trigger] pts[s[l] as int]) > 0
}

/// Each point alone in a cluster of its own, in input order.
pub open spec fn singletons<const N: usize>(cs: Seq<Cluster<N>>, points: Seq<Point<N>>) -> bool {
    &&& cs.len() == points.len()
    &&& forall|i: int| 0 <= i < cs.len() ==> #[trigger] cs[i]@ == seq![(i as usize, points[i])]
}

/// K-means clustering with k-means++ seeding.
#[derive(Debug)]
pub struct Kmeans {
    k: usize,
    max_iter: usize,
    tolerance: u128,
    rng: StdRng,
    metric: DistanceMetric,
}

impl Kmeans {
    pub closed spec fn spec_k(&self) -> nat {
        self.k as nat
    }

    pub closed spec fn spec_max_iter(&self) -> nat {
        self.max_iter as nat
    }

    pub closed spec fn spec_tolerance(&self) -> nat {
        self.tolerance as nat
    }

    pub closed spec fn spec_metric(&self) -> DistanceMetric {
        self.metric
    }

    /// The configuration is valid.
    pub open spec fn wf(&self) -> bool {
        self.spec_k() >= 1 && self.spec_max_iter() >= 1 && self.spec_tolerance() >= 1
    }

    /// Sets up a clustering into `k` clusters, running at most `max_iter`
    /// rounds and stopping early once no centroid moves by `tolerance` or
    /// more under `metric`.
    pub fn new(k: usize, max_iter: usize, tolerance: u128, rng: StdRng, metric: DistanceMetric) -> (r:
        Result<Kmeans, KmeansError>)
        ensures
            k == 0 ==> r == Err::<Kmeans, KmeansError>(KmeansError::InvalidClusterCount),
            k > 0 && max_iter == 0 ==> r == Err::<Kmeans, KmeansError>(
                KmeansError::InvalidMaxIterations,
            ),
            k > 0 && max_iter > 0 && tolerance == 0 ==> r == Err::<Kmeans, KmeansError>(
                KmeansError::InvalidTolerance,
            ),
            k > 0 && max_iter > 0 && tolerance > 0 ==> (r matches Ok(e) && e.wf() && e.spec_k() == k
                && e.spec_max_iter() == max_iter && e.spec_tolerance() == tolerance
                && e.spec_metric() == metric),
    {
        if k == 0 {
            return Err(KmeansError::InvalidClusterCount);
        }
        if max_iter == 0 {
            return Err(KmeansError::InvalidMaxIterations);
        }
        if tolerance == 0 {
            return Err(KmeansError::InvalidTolerance);
        }
        Ok(Kmeans { k, max_iter, tolerance, rng, metric })
    }

    pub fn k(&self) -> (r: usize)
        ensures
            r == self.spec_k(),
    {
        self.k
    }

    pub fn max_iter(&self) -> (r: usize)
        ensures
            r == self.spec_max_iter(),
    {
        self.max_iter
    }

    pub fn tolerance(&self) -> (r: u128)
        ensures
            r == self.spec_tolerance(),
    {
        self.tolerance
    }

    pub fn metric(&self) -> (r: DistanceMetric)
        ensures
            r == self.spec_metric(),
    {
        self.metric
    }

    /// k-means++ seeding: the first seed uniformly at random, each next one
    /// drawn with probability proportional to its distance to the nearest
    /// seed so far.
    fn seed<const N: usize>(&self, points: &[Point<N>], rng: &mut StdRng) -> (r: Result<
        Vec<usize>,
        KmeansError,
    >)
        requires
            self.wf(),
            self.spec_k() < points@.len(),
        ensures
            r matches Ok(s) ==> spread_seeds(self.spec_metric(), views(points@), s@, self.spec_k()),
            r matches Err(e) ==> e == KmeansError::SamplingError,
            self.spec_k() == 1 ==> r is Ok,
            seedable(self.spec_metric(), views(points@), N as nat) ==> r is Ok,
    {
        let ghost pts = views(points@);
        let m = self.metric;
        let first = uniform_index(rng, points.len());
        let mut seeds: Vec<usize> = Vec::new();
        let mut cents: Vec<Point<N>> = Vec::new();
        seeds.push(first);
        cents.push(points[first]);
        while seeds.len() < self.k
            invariant
                self.wf(),
                m == self.spec_metric(),
                pts == views(points@),
                self.spec_k() < points@.len(),
                1 <= seeds@.len() <= self.spec_k(),
                cents@.len() == seeds@.len(),
                forall|j: int| 0 <= j < seeds@.len() ==> #[trigger] cents@[j] == points@[seeds@[j] as int],
                spread_seeds(m, pts, seeds@, seeds@.len() as nat),
            decreases self.spec_k() - seeds@.len(),
        {
            let weights = distance_weights(m, points, &cents);
            let ghost w = weights@;
            proof {
                if seedable(m, pts, N as nat) {
                    let i = lemma_index_left_out(seeds@, points@.len());
                    assert forall|l: int| 0 <= l < cents@.len() implies m.spec_measure(
                        points@[i]@,
                        #[trigger] views(cents@)[l],
                    ) > 0 by {
                        assert(views(cents@)[l] == pts[seeds@[l] as int]);
                        assert(pts[i] == points@[i]@);
                    };
                    lemma_min_dist_positive(m, points@[i]@, views(cents@), cents@.len() as nat);
                    assert(w[i] > 0);
                    assert forall|q: int| 0 <= q < w.len() implies w[q] <= u128::MAX / (
                    w.len() as u128) by {
                        lemma_min_dist_le(m, points@[q]@, views(cents@), cents@.len() as nat, 0);
                        assert(points@[q]@.len() == N);
                        assert(views(cents@)[0] == cents@[0]@);
                        assert(cents@[0]@.len() == N);
                        lemma_measure_bound(m, points@[q]@, views(cents@)[0]);
                    };
                }
            }
            let table = match alias_table(weights) {
                Some(t) => t,
                None => {
                    return Err(KmeansError::SamplingError);
                },
            };
            let i = draw_index(&table, rng);
            proof {
                assert(w[i as int] > 0);
                assert forall|l: int| 0 <= l < seeds@.len() implies m.spec_measure(
                    pts[i as int],
                    pts[seeds@[l] as int],
                ) > 0 by {
                    lemma_min_dist_le(m, points@[i as int]@, views(cents@), cents@.len() as nat, l);
                    assert(views(cents@)[l] == pts[seeds@[l] as int]);
                };
            }
            let ghost before = seeds@;
            seeds.push(i);
            cents.push(points[i]);
            proof {
                assert forall|j: int, l: int|
                    0 <= l < j < seeds@.len() implies m.spec_measure(
                    #[trigger] pts[seeds@[j] as int],
                    #[trigger] pts[seeds@[l] as int],
                ) > 0 by {
                    if j < before.len() {
                        assert(seeds@[j] == before[j] && seeds@[l] == before[l]);
                    }
                };
            }
        }
        Ok(seeds)
    }

    /// Clusters `points`. With no points the result is empty; with at most
    /// `k` points each point is a cluster of its own; otherwise `k` clusters
    /// come from k-means++ seeding followed by Lloyd's refinement.
    pub fn fit<const N: usize>(&self, points: &[Point<N>]) -> (r: Result<Vec<Cluster<N>>, KmeansError>)
        requires
            self.wf(),
        ensures
            points@.len() == 0 ==> (r matches Ok(cs) && cs@.len() == 0),
            0 < points@.len() <= self.spec_k() ==> (r matches Ok(cs) && singletons(cs@, points@)),
            self.spec_k() < points@.len() ==> match r {
                Ok(cs) => exists|s: Seq<usize>|
                    {
                        &&& spread_seeds(self.spec_metric(), views(points@), s, self.spec_k())
                        &&& cs@.len() == self.spec_k()
                        &&& clusters_match(
                            cs@,
                            points@,
                            lloyd(
                                self.spec_metric(),
                                views(points@),
                                gather(views(points@), s),
                                N as nat,
                                self.spec_tolerance(),
                                self.spec_max_iter(),
                            ).0,
                        )
                    },
                Err(e) => e == KmeansError::SamplingError,
            },
            self.spec_k() == 1 ==> r is Ok,
            seedable(self.spec_metric(), views(points@), N as nat) ==> r is Ok,
    {
        let n = points.len();
        if n == 0 {
            return Ok(Vec::new());
        }
        if self.k >= n {
            let mut cs: Vec<Cluster<N>> = Vec::new();
            let mut i: usize = 0;
            while i < n
                invariant
                    i <= n,
                    n == points@.len(),
                    cs@.len() == i,
                    forall|q: int| 0 <= q < i ==> #[trigger] cs@[q]@ == seq![(q as usize, points@[q])],
                decreases n - i,
            {
                let mut c = Cluster::new();
                c.add_point(i, &points[i]);
                cs.push(c);
                i = i + 1;
            }
            return Ok(cs);
        }
        let mut rng = copy_rng(&self.rng);
        let seeds = match self.seed(points, &mut rng) {
            Ok(s) => s,
            Err(e) => {
                return Err(e);
            },
        };
        let mut cents: Vec<Point<N>> = Vec::new();
        let mut j: usize = 0;
        while j < seeds.len()
            invariant
                j <= seeds@.len(),
                forall|q: int| 0 <= q < seeds@.len() ==> seeds@[q] < points@.len(),
                cents@.len() == j,
                forall|q: int| 0 <= q < j ==> #[trigger] cents@[q] == points@[seeds@[q] as int],
            decreases seeds@.len() - j,
        {
            cents.push(points[seeds[j]]);
            j = j + 1;
        }
        assert(views(cents@) =~= gather(views(points@), seeds@));
        let cs = self.refine(points, cents);
        Ok(cs)
    }

    /// Lloyd's refinement from the given centroids: returns one cluster per
    /// centroid, holding the points of the final assignment.
    pub fn refine<const N: usize>(&self, points: &[Point<N>], centroids: Vec<Point<N>>) -> (r: Vec<
        Cluster<N>,
    >)
        requires
            self.wf(),
            centroids@.len() >= 1,
        ensures
            r@.len() == centroids@.len(),
            clusters_match(
                r@,
                points@,
                lloyd(
                    self.spec_metric(),
                    views(points@),
                    views(centroids@),
                    N as nat,
                    self.spec_tolerance(),
                    self.spec_max_iter(),
                ).0,
            ),
    {
        let ghost pts = views(points@);
        let ghost m = self.metric;
        let ghost tol = self.tolerance as nat;
        let ghost target = lloyd(
            self.spec_metric(),
            views(points@),
            views(centroids@),
            N as nat,
            self.spec_tolerance(),
            self.spec_max_iter(),
        ).0;
        let k = centroids.len();
        let mut cents = centroids;
        let mut round: usize = 0;
        loop
            invariant
                self.wf(),
                m == self.spec_metric(),
                tol == self.spec_tolerance(),
                pts == views(points@),
                cents@.len() == k,
                k == centroids@.len(),
                target == lloyd(
                    self.spec_metric(),
                    views(points@),
                    views(centroids@),
                    N as nat,
                    self.spec_tolerance(),
                    self.spec_max_iter(),
                ).0,
                k >= 1,
                round < self.max_iter,
                target == lloyd(m, pts, views(cents@), N as nat, tol, (self.max_iter - round) as nat).0,
            decreases self.max_iter - round,
        {
            let labels = assign(self.metric, points, &cents);
            let ghost ls = nats(labels@);
            let ghost next_spec = moved_all(pts, ls, views(cents@), N as nat);
            let mut clusters: Vec<Cluster<N>> = Vec::new();
            let mut next: Vec<Point<N>> = Vec::new();
            let mut j: usize = 0;
            while j < k
                invariant
                    j <= k,
                    k == cents@.len(),
                    labels@.len() == points@.len(),
                    ls == nats(labels@),
                    pts == views(points@),
                    next_spec == moved_all(pts, ls, views(cents@), N as nat),
                    clusters@.len() == j,
                    next@.len() == j,
                    clusters_match(clusters@, points@, ls),
                    forall|e: int| 0 <= e < j ==> #[trigger] next@[e]@ == next_spec[e],
                decreases k - j,
            {
                let c = group(points, &labels, j);
                let p = if c.is_empty() {
                    cents[j]
                } else {
                    c.centroid()
                };
                proof {
                    let ms = members_of(ls, j as nat);
                    assert(member_points(c@) =~= gather(pts, ms));
                    assert(p@ == moved(pts, ls, views(cents@), j as int, N as nat));
                }
                clusters.push(c);
                next.push(p);
                j = j + 1;
            }
            let mut max_shift: u128 = 0;
            let mut e: usize = 0;
            while e < k
                invariant
                    e <= k,
                    k == cents@.len(),
                    k == next@.len(),
                    forall|i: int| 0 <= i < e ==> m.spec_measure(cents@[i]@, next@[i]@) <= max_shift,
                    max_shift == 0 || exists|i: int|
                        0 <= i < e && m.spec_measure(cents@[i]@, next@[i]@) == max_shift,
                    m == self.metric,
                decreases k - e,
            {
                let d = self.metric.measure(&cents[e], &next[e]);
                if d > max_shift {
                    max_shift = d;
                }
                e = e + 1;
            }
            proof {
                assert(views(next@) =~= next_spec);
                assert(ls =~= labels_of(m, pts, views(cents@)));
                if max_shift < self.tolerance {
                    assert(settled(m, views(cents@), next_spec, tol));
                } else {
                    assert(!settled(m, views(cents@), next_spec, tol));
                }
            }
            if max_shift < self.tolerance || round + 1 >= self.max_iter {
                assert(target == ls);
                return clusters;
            }
            assert(target == lloyd(
                m,
                pts,
                views(next@),
                N as nat,
                tol,
                (self.max_iter - (round + 1)) as nat,
            ).0);
            cents = next;
            round = round + 1;
        }
    }
}

/// For each point, its distance to the nearest centroid.
fn distance_weights<const N: usize>(m: DistanceMetric, points: &[Point<N>], cents: &Vec<Point<N>>) -> (r:
    Vec<u128>)
    requires
        cents@.len() >= 1,
    ensures
        r@.len() == points@.len(),
        forall|i: int|
            0 <= i < r@.len() ==> r@[i] == min_dist_upto(
                m,
                points@[i]@,
                views(cents@),
                cents@.len() as nat,
            ),
{
    let ghost cs = views(cents@);
    let mut r: Vec<u128> = Vec::new();
    let mut i: usize = 0;
    while i < points.len()
        invariant
            i <= points@.len(),
            cents@.len() >= 1,
            cs == views(cents@),
            r@.len() == i,
            forall|q: int|
                0 <= q < i ==> r@[q] == min_dist_upto(m, points@[q]@, cs, cents@.len() as nat),
        decreases points@.len() - i,
    {
        let p = &points[i];
        let mut best = m.measure(p, &cents[0]);
        let mut c: usize = 1;
        while c < cents.len()
            invariant
                1 <= c <= cents@.len(),
                cs == views(cents@),
                i < points@.len(),
                p == points@[i as int],
                best == min_dist_upto(m, p@, cs, c as nat),
            decreases cents@.len() - c,
        {
            let d = m.measure(p, &cents[c]);
            if d < best {
                best = d;
            }
            c = c + 1;
        }
        r.push(best);
        i = i + 1;
    }
    r
}

/// The index of the nearest centroid to `p`, the lowest one on a tie.
fn nearest<const N: usize>(m: DistanceMetric, p: &Point<N>, cents: &Vec<Point<N>>) -> (r: usize)
    requires
        cents@.len() >= 1,
    ensures
        r == nearest_upto(m, p@, views(cents@), cents@.len() as nat),
        r < cents@.len(),
{
    let ghost cs = views(cents@);
    let mut best: usize = 0;
    let mut best_distance = m.measure(p, &cents[0]);
    let mut c: usize = 1;
    while c < cents.len()
        invariant
            1 <= c <= cents@.len(),
            cs == views(cents@),
            best < c,
            best == nearest_upto(m, p@, cs, c as nat),
            best_distance == m.spec_measure(p@, cs[best as int]),
        decreases cents@.len() - c,
    {
        let d = m.measure(p, &cents[c]);
        if d < best_distance {
            best = c;
            best_distance = d;
        }
        c = c + 1;
    }
    best
}

/// The label of each point: the index of its nearest centroid.
fn assign<const N: usize>(m: DistanceMetric, points: &[Point<N>], cents: &Vec<Point<N>>) -> (r: Vec<
    usize,
>)
    requires
        cents@.len() >= 1,
    ensures
        nats(r@) == labels_of(m, views(points@), views(cents@)),
        forall|i: int| 0 <= i < r@.len() ==> r@[i] < cents@.len(),
{
    let mut r: Vec<usize> = Vec::new();
    let mut i: usize = 0;
    while i < points.len()
        invariant
            i <= points@.len(),
            cents@.len() >= 1,
            r@.len() == i,
            forall|q: int|
                0 <= q < i ==> r@[q] == nearest_upto(
                    m,
                    points@[q]@,
                    views(cents@),
                    cents@.len() as nat,
                ) && r@[q] < cents@.len(),
        decreases points@.len() - i,
    {
        let l = nearest(m, &points[i], cents);
        r.push(l);
        i = i + 1;
    }
    assert(nats(r@) =~= labels_of(m, views(points@), views(cents@)));
    r
}

/// The cluster of the points labelled `j`.
fn group<const N: usize>(points: &[Point<N>], labels: &Vec<usize>, j: usize) -> (c: Cluster<N>)
    requires
        labels@.len() == points@.len(),
    ensures
        member_indices(c@) == members_of(nats(labels@), j as nat),
        forall|q: int|
            0 <= q < c@.len() ==> (c@[q].0 < points@.len() && c@[q].1 == points@[c@[q].0 as int]),
{
    let ghost ls = nats(labels@);
    let mut c = Cluster::new();
    let mut i: usize = 0;
    assert(ls.take(0) =~= Seq::<nat>::empty());
    assert(member_indices(c@) =~= Seq::<usize>::empty());
    while i < points.len()
        invariant
            i <= points@.len(),
            labels@.len() == points@.len(),
            ls == nats(labels@),
            member_indices(c@) == members_of(ls.take(i as int), j as nat),
            forall|q: int|
                0 <= q < c@.len() ==> (c@[q].0 < points@.len() && c@[q].1 == points@[c@[q].0 as int]),
        decreases points@.len() - i,
    {
        let ghost before = c@;
        assert(ls.take(i + 1).drop_last() =~= ls.take(i as int));
        if labels[i] == j {
            c.add_point(i, &points[i]);
            assert(member_indices(c@) =~= member_indices(before).push(i));
        }
        i = i + 1;
    }
    assert(ls.take(i as int) =~= ls);
    c
}

} // verus!
