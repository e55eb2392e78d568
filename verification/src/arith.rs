use vstd::prelude::*;

verus! {

/// One more than the largest value whose square still fits in `u128`.
pub const SQRT_CAP: u128 = 0x1_0000_0000_0000_0000;

/// `r` is the integer square root of `x`: the largest integer whose square
/// does not exceed `x`.
pub open spec fn is_floor_sqrt(x: int, r: int) -> bool {
    &&& 0 <= r
    &&& r * r <= x
    &&& x < (r + 1) * (r + 1)
}

/// The integer square root is a function of its argument alone: two values
/// that both satisfy [`is_floor_sqrt`] for the same `x` are equal.  Voting
/// power therefore depends only on the cumulative staked amount, never on
/// the deposit history that produced it.
pub proof fn lemma_floor_sqrt_unique(x: int, r1: int, r2: int)
    requires
        is_floor_sqrt(x, r1),
        is_floor_sqrt(x, r2),
    ensures
        r1 == r2,
{
    assert(r1 == r2) by (nonlinear_arith)
        requires
            0 <= r1,
            r1 * r1 <= x,
            x < (r1 + 1) * (r1 + 1),
            0 <= r2,
            r2 * r2 <= x,
            x < (r2 + 1) * (r2 + 1),
    ;
}

/// Computes the integer square root of `x` by bisection.
pub fn floor_sqrt_u128(x: u128) -> (r: u128)
    ensures
        is_floor_sqrt(x as int, r as int),
{
    let mut lo: u128 = 0;
    let mut hi: u128 = SQRT_CAP;
    proof {
        assert((SQRT_CAP as int) * (SQRT_CAP as int) > x as int) by (nonlinear_arith)
            requires
                x <= u128::MAX,
        ;
    }
    while lo + 1 < hi
        invariant
            lo < hi <= SQRT_CAP,
            (lo as int) * (lo as int) <= x as int,
            (x as int) < (hi as int) * (hi as int),
        decreases hi - lo,
    {
        let mid: u128 = lo + (hi - lo) / 2;
        proof {
            assert((mid as int) * (mid as int) < (SQRT_CAP as int) * (SQRT_CAP as int))
                by (nonlinear_arith)
                requires
                    0 <= mid as int,
                    (mid as int) < SQRT_CAP as int,
            ;
            assert((SQRT_CAP as int) * (SQRT_CAP as int) == u128::MAX as int + 1);
        }
        let sq: u128 = mid * mid;
        if sq <= x {
            lo = mid;
        } else {
            hi = mid;
        }
    }
    lo
}

} // verus!
