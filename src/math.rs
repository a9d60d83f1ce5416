use vstd::prelude::*;

verus! {

/// Fixed-point one: ratios are expressed in ten-thousandths.
pub const UNIT: u64 = 10000;

/// Where `v` lies between `min` and `max`, as a fixed-point ratio rounded down.
pub fn normalize(v: u64, min: u64, max: u64) -> (r: u64)
    requires
        min <= v,
        min < max,
        (v - min) * UNIT <= u64::MAX,
    ensures
        r == (v - min) * UNIT / (max - min),
{
    (v - min) * UNIT / (max - min)
}

/// The largest `r` with `r * r <= x`.
pub open spec fn floor_sqrt(x: nat) -> nat
    decreases x,
{
    if x == 0 {
        0
    } else {
        let r = floor_sqrt((x - 1) as nat);
        if (r + 1) * (r + 1) <= x {
            r + 1
        } else {
            r
        }
    }
}

/// `floor_sqrt(x)` is bracketed by consecutive squares around `x`.
pub proof fn lemma_floor_sqrt_bounds(x: nat)
    ensures
        floor_sqrt(x) * floor_sqrt(x) <= x,
        x < (floor_sqrt(x) + 1) * (floor_sqrt(x) + 1),
    decreases x,
{
    if x == 0 {
        assert(floor_sqrt(0) == 0);
        let r = floor_sqrt(x);
        assert((r + 1) * (r + 1) == 1) by (nonlinear_arith)
            requires
                r == 0,
        ;
    } else {
        lemma_floor_sqrt_bounds((x - 1) as nat);
        let r = floor_sqrt((x - 1) as nat);
        if (r + 1) * (r + 1) <= x {
            assert(floor_sqrt(x) == r + 1);
            assert((r + 1) * (r + 1) == x);
            assert(x < (r + 2) * (r + 2)) by (nonlinear_arith)
                requires
                    (r + 1) * (r + 1) == x,
            ;
        } else {
            assert(floor_sqrt(x) == r);
            assert(x < (floor_sqrt(x) + 1) * (floor_sqrt(x) + 1));
        }
    }
}

/// Only one natural number is bracketed by consecutive squares around `x`.
pub proof fn lemma_floor_sqrt_unique(x: nat, r: nat)
    requires
        r * r <= x,
        x < (r + 1) * (r + 1),
    ensures
        r == floor_sqrt(x),
{
    lemma_floor_sqrt_bounds(x);
    let s = floor_sqrt(x);
    if r < s {
        assert((r + 1) * (r + 1) <= s * s) by (nonlinear_arith)
            requires
                r + 1 <= s,
        ;
    } else if s < r {
        assert((s + 1) * (s + 1) <= r * r) by (nonlinear_arith)
            requires
                s + 1 <= r,
        ;
    }
}

/// Integer square root, rounded down.
pub fn isqrt(x: u128) -> (r: u128)
    ensures
        r == floor_sqrt(x as nat),
        r * r <= x,
        x < (r + 1) * (r + 1),
{
    let mut lo: u128 = 0;
    let mut hi: u128 = 0x1_0000_0000_0000_0000;
    assert(x < hi * hi);
    while hi - lo > 1
        invariant
            lo < hi <= 0x1_0000_0000_0000_0000,
            lo * lo <= x,
            x < hi * hi,
        decreases hi - lo,
    {
        let mid: u128 = lo + (hi - lo) / 2;
        assert(mid * mid <= 0xFFFF_FFFF_FFFF_FFFFu128 * 0xFFFF_FFFF_FFFF_FFFFu128) by (nonlinear_arith)
            requires
                mid <= 0xFFFF_FFFF_FFFF_FFFFu128,
        ;
        if mid * mid <= x {
            lo = mid;
        } else {
            hi = mid;
        }
    }
    assert(hi == lo + 1);
    proof {
        lemma_floor_sqrt_unique(x as nat, lo as nat);
    }
    lo
}

} // verus!
