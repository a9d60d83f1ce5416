use vstd::prelude::*;

use crate::math::{floor_sqrt, isqrt};
use crate::point::Point;

verus! {

/// Largest square of a difference of two coordinates.
pub const MAX_SQUARE: u128 = 0xFFFF_FFFE_0000_0001;

/// Sum of the squared coordinate differences over the first `n` coordinates.
pub open spec fn sq_dist_upto(a: Seq<u32>, b: Seq<u32>, n: nat) -> nat
    decreases n,
{
    if n == 0 {
        0
    } else {
        let d = a[n - 1] - b[n - 1];
        sq_dist_upto(a, b, (n - 1) as nat) + (d * d) as nat
    }
}

/// The squared Euclidean distance between two coordinate sequences.
pub open spec fn sq_dist(a: Seq<u32>, b: Seq<u32>) -> nat {
    sq_dist_upto(a, b, a.len())
}

/// How far apart two points are.
#[derive(Clone, Copy, Debug, PartialEq, Eq, Structural)]
pub enum DistanceMetric {
    /// The Euclidean distance, rounded down.
    Euclidean,
    /// The square of the Euclidean distance.
    SquaredEuclidean,
}

impl DistanceMetric {
    pub open spec fn spec_measure(&self, a: Seq<u32>, b: Seq<u32>) -> nat {
        match self {
            DistanceMetric::Euclidean => floor_sqrt(sq_dist(a, b)),
            DistanceMetric::SquaredEuclidean => sq_dist(a, b),
        }
    }

    /// The distance between `a` and `b` under this metric.
    pub fn measure<const N: usize>(&self, a: &Point<N>, b: &Point<N>) -> (r: u128)
        ensures
            r == self.spec_measure(a@, b@),
    {
        let s = squared_distance(a, b);
        match self {
            DistanceMetric::Euclidean => isqrt(s),
            DistanceMetric::SquaredEuclidean => s,
        }
    }
}

fn squared_distance<const N: usize>(a: &Point<N>, b: &Point<N>) -> (r: u128)
    ensures
        r == sq_dist(a@, b@),
{
    assert(a@.len() == N);
    let mut acc: u128 = 0;
    let mut i: usize = 0;
    while i < N
        invariant
            i <= N,
            N <= usize::MAX,
            acc == sq_dist_upto(a@, b@, i as nat),
            a@.len() == N,
            acc <= i * MAX_SQUARE,
        decreases N - i,
    {
        let x = a.coords[i];
        let y = b.coords[i];
        let d: u128 = if x >= y {
            (x - y) as u128
        } else {
            (y - x) as u128
        };
        assert(d * d <= MAX_SQUARE) by (nonlinear_arith)
            requires
                d <= 0xFFFF_FFFF,
        ;
        assert(d * d == (x - y) * (x - y)) by (nonlinear_arith)
            requires
                d == x - y || d == y - x,
        ;
        assert(acc + d * d <= (i + 1) * MAX_SQUARE) by (nonlinear_arith)
            requires
                acc <= i * MAX_SQUARE,
                d * d <= MAX_SQUARE,
        ;
        assert((i + 1) * MAX_SQUARE < 0x1_0000_0000_0000_0000 * MAX_SQUARE) by (nonlinear_arith)
            requires
                i + 1 <= usize::MAX,
                usize::MAX < 0x1_0000_0000_0000_0000,
        ;
        acc = acc + d * d;
        i = i + 1;
    }
    acc
}

/// Each coordinate adds at most `MAX_SQUARE` to the squared distance.
pub proof fn lemma_sq_dist_upto_bound(a: Seq<u32>, b: Seq<u32>, n: nat)
    requires
        n <= a.len(),
        n <= b.len(),
    ensures
        sq_dist_upto(a, b, n) <= n * MAX_SQUARE,
    decreases n,
{
    if n > 0 {
        lemma_sq_dist_upto_bound(a, b, (n - 1) as nat);
        let d = a[n - 1] - b[n - 1];
        assert(d * d <= MAX_SQUARE) by (nonlinear_arith)
            requires
                -0xFFFF_FFFF <= d <= 0xFFFF_FFFF,
        ;
        assert((n - 1) * MAX_SQUARE + MAX_SQUARE == n * MAX_SQUARE) by (nonlinear_arith);
        assert(d * d >= 0) by (nonlinear_arith);
        assert(sq_dist_upto(a, b, n) == sq_dist_upto(a, b, (n - 1) as nat) + d * d);
    }
}

/// No metric measures more than `MAX_SQUARE` per coordinate.
pub proof fn lemma_measure_bound(m: DistanceMetric, a: Seq<u32>, b: Seq<u32>)
    requires
        a.len() == b.len(),
    ensures
        m.spec_measure(a, b) <= a.len() * MAX_SQUARE,
{
    lemma_sq_dist_upto_bound(a, b, a.len());
    let x = sq_dist(a, b);
    crate::math::lemma_floor_sqrt_bounds(x);
    let r = floor_sqrt(x);
    assert(r <= r * r || r == 0) by (nonlinear_arith);
}

/// The squared distance does not depend on the order of its arguments.
pub proof fn lemma_sq_dist_upto_symmetric(a: Seq<u32>, b: Seq<u32>, n: nat)
    ensures
        sq_dist_upto(a, b, n) == sq_dist_upto(b, a, n),
    decreases n,
{
    if n > 0 {
        lemma_sq_dist_upto_symmetric(a, b, (n - 1) as nat);
        let d = a[n - 1] - b[n - 1];
        assert(d * d == (-d) * (-d)) by (nonlinear_arith);
    }
}

/// A point is at squared distance zero from itself.
pub proof fn lemma_sq_dist_upto_self(a: Seq<u32>, n: nat)
    ensures
        sq_dist_upto(a, a, n) == 0,
    decreases n,
{
    if n > 0 {
        lemma_sq_dist_upto_self(a, (n - 1) as nat);
    }
}

/// Every metric is symmetric, and measures zero from a point to itself.
pub proof fn lemma_measure_symmetric(m: DistanceMetric, a: Seq<u32>, b: Seq<u32>)
    requires
        a.len() == b.len(),
    ensures
        m.spec_measure(a, b) == m.spec_measure(b, a),
        m.spec_measure(a, a) == 0,
{
    lemma_sq_dist_upto_symmetric(a, b, a.len());
    lemma_sq_dist_upto_self(a, a.len());
    assert(floor_sqrt(0) == 0);
}

} // verus!
