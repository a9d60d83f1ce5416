use vstd::prelude::*;

verus! {

/// A point with `N` fixed-point integer coordinates.
#[derive(Clone, Copy, Debug, PartialEq, Eq)]
pub struct Point<const N: usize> {
    pub coords: [u32; N],
}

impl<const N: usize> View for Point<N> {
    type V = Seq<u32>;

    open spec fn view(&self) -> Seq<u32> {
        self.coords@
    }
}

impl<const N: usize> Point<N> {
    pub fn new(coords: [u32; N]) -> (r: Point<N>)
        ensures
            r@ == coords@,
    {
        Point { coords }
    }
}

} // verus!
