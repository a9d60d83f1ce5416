use rand::rngs::StdRng;
use rand::Rng;
use rand_distr::{Distribution, WeightedAliasIndex};
use vstd::prelude::*;

verus! {

#[verifier::external_type_specification]
#[verifier::external_body]
pub struct ExStdRng(StdRng);

/// A table for drawing indices in proportion to integer weights. Verus
/// refuses to declare `WeightedAliasIndex` itself, whose bound is a trait of
/// its crate, so it is held here out of Verus's sight.
#[verifier::external_body]
pub struct AliasTable {
    table: WeightedAliasIndex<u128>,
}

/// The weights that a sampling table was built from.
pub uninterp spec fn table_weights(t: AliasTable) -> Seq<u128>;

/// The weights are accepted by `WeightedAliasIndex::new` for `u128`.
pub open spec fn weights_accepted(w: Seq<u128>) -> bool {
    &&& 0 < w.len() <= u32::MAX
    &&& forall|i: int| 0 <= i < w.len() ==> w[i] <= u128::MAX / (w.len() as u128)
    &&& exists|i: int| 0 <= i < w.len() && w[i] > 0
}

/// Relies on `StdRng`'s `Clone`: an independent generator in the same state.
#[verifier::external_body]
pub(crate) fn copy_rng(rng: &StdRng) -> StdRng {
    rng.clone()
}

/// Relies on `Rng::gen_range` over `0..n`: a value in that range (it panics
/// on an empty range).
#[verifier::external_body]
pub(crate) fn uniform_index(rng: &mut StdRng, n: usize) -> (r: usize)
    requires
        n > 0,
    ensures
        r < n,
{
    rng.gen_range(0..n)
}

/// Relies on `WeightedAliasIndex::new`: for integer weights it fails exactly
/// when there are none, more than `u32::MAX`, one above `MAX / len`, or all
/// are zero.
#[verifier::external_body]
pub(crate) fn alias_table(weights: Vec<u128>) -> (r: Option<AliasTable>)
    ensures
        r.is_some() == weights_accepted(weights@),
        r matches Some(t) ==> table_weights(t) == weights@,
{
    WeightedAliasIndex::new(weights).ok().map(|table| AliasTable { table })
}

/// Relies on sampling a `WeightedAliasIndex`: an index drawn with probability
/// proportional to its weight, so never one of weight zero (such an entry is
/// always replaced by its alias, an entry of positive weight).
#[verifier::external_body]
pub(crate) fn draw_index(t: &AliasTable, rng: &mut StdRng) -> (r: usize)
    ensures
        r < table_weights(*t).len(),
        table_weights(*t)[r as int] > 0,
{
    t.table.sample(rng)
}

} // verus!
