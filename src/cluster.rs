use vstd::prelude::*;

use crate::point::Point;

verus! {

/// Largest coordinate value.
pub const MAX_COORD: u128 = 0xFFFF_FFFF;

/// Sum of coordinate `d` over the first `j` of `pts`.
pub open spec fn coord_sum(pts: Seq<Seq<u32>>, d: int, j: nat) -> nat
    decreases j,
{
    if j == 0 {
        0
    } else {
        coord_sum(pts, d, (j - 1) as nat) + pts[j - 1][d] as nat
    }
}

/// The coordinate-wise mean of `pts`, each coordinate rounded down; the origin
/// when `pts` is empty.
pub open spec fn mean_of(pts: Seq<Seq<u32>>, n: nat) -> Seq<u32> {
    Seq::new(
        n,
        |d: int|
            if pts.len() == 0 {
                0u32
            } else {
                (coord_sum(pts, d, pts.len()) / pts.len()) as u32
            },
    )
}

/// The coordinates of each member of a cluster.
pub open spec fn member_points<const N: usize>(ms: Seq<(usize, Point<N>)>) -> Seq<Seq<u32>> {
    ms.map_values(|m: (usize, Point<N>)| m.1@)
}

/// The indices of the members of a cluster.
pub open spec fn member_indices<const N: usize>(ms: Seq<(usize, Point<N>)>) -> Seq<usize> {
    ms.map_values(|m: (usize, Point<N>)| m.0)
}

/// A group of points, each kept with its index in the input.
#[derive(Clone, Debug)]
pub struct Cluster<const N: usize> {
    members: Vec<(usize, Point<N>)>,
}

impl<const N: usize> View for Cluster<N> {
    type V = Seq<(usize, Point<N>)>;

    closed spec fn view(&self) -> Seq<(usize, Point<N>)> {
        self.members@
    }
}

impl<const N: usize> Cluster<N> {
    pub fn new() -> (r: Cluster<N>)
        ensures
            r@ == Seq::<(usize, Point<N>)>::empty(),
    {
        Cluster { members: Vec::new() }
    }

    /// Drops every member.
    pub fn clear(&mut self)
        ensures
            final(self)@ == Seq::<(usize, Point<N>)>::empty(),
    {
        self.members.clear();
    }

    /// Adds the point found at `index` in the input.
    pub fn add_point(&mut self, index: usize, point: &Point<N>)
        ensures
            final(self)@ == old(self)@.push((index, *point)),
    {
        self.members.push((index, *point));
    }

    pub fn len(&self) -> (r: usize)
        ensures
            r == self@.len(),
    {
        self.members.len()
    }

    pub fn is_empty(&self) -> (r: bool)
        ensures
            r == (self@.len() == 0),
    {
        self.members.len() == 0
    }

    /// The input indices of the members, in the order they were added.
    pub fn indices(&self) -> (r: Vec<usize>)
        ensures
            r@ == member_indices(self@),
    {
        let mut r: Vec<usize> = Vec::new();
        let mut j: usize = 0;
        while j < self.members.len()
            invariant
                j <= self.members@.len(),
                r@ == member_indices(self.members@.take(j as int)),
            decreases self.members@.len() - j,
        {
            r.push(self.members[j].0);
            j = j + 1;
            assert(member_indices(self.members@.take(j as int)) =~= member_indices(
                self.members@.take(j - 1 as int),
            ).push(self.members@[j - 1].0));
        }
        assert(self.members@.take(j as int) =~= self.members@);
        r
    }

    /// The coordinate-wise mean of the members, rounded down; the origin for
    /// an empty cluster.
    pub fn centroid(&self) -> (r: Point<N>)
        ensures
            r@ == mean_of(member_points(self@), N as nat),
    {
        let ghost pts = member_points(self@);
        let mut coords = [0u32; N];
        let n = self.members.len();
        if n == 0 {
            assert(coords@ =~= mean_of(pts, N as nat));
            return Point { coords };
        }
        let mut d: usize = 0;
        while d < N
            invariant
                d <= N,
                coords@.len() == N,
                n == self.members@.len(),
                n > 0,
                pts == member_points(self@),
                forall|e: int| 0 <= e < d ==> coords@[e] == mean_of(pts, N as nat)[e],
            decreases N - d,
        {
            let mut sum: u128 = 0;
            let mut j: usize = 0;
            while j < n
                invariant
                    j <= n,
                    n == self.members@.len(),
                    d < N,
                    pts == member_points(self@),
                    sum == coord_sum(pts, d as int, j as nat),
                    sum <= j * MAX_COORD,
                decreases n - j,
            {
                let c = self.members[j].1.coords[d];
                assert(pts[j as int][d as int] == c);
                assert((j + 1) * MAX_COORD <= 0x1_0000_0000_0000_0000 * MAX_COORD) by (
                nonlinear_arith)
                    requires
                        j + 1 <= 0x1_0000_0000_0000_0000,
                ;
                sum = sum + c as u128;
                j = j + 1;
            }
            let m = sum / (n as u128);
            assert(m <= MAX_COORD) by (nonlinear_arith)
                requires
                    sum <= n * MAX_COORD,
                    n > 0,
                    m == sum / (n as u128),
            ;
            coords[d] = m as u32;
            d = d + 1;
        }
        assert(coords@ =~= mean_of(pts, N as nat));
        Point { coords }
    }
}

} // verus!
