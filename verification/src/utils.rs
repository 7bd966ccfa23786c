use vstd::prelude::*;

verus! {

/// The smallest number of `y`-sized chunks that cover `x` items.
pub open spec fn ceil_div(x: int, y: int) -> int {
    (x + y - 1) / y
}

/// Integer division of `x` by `y`, rounded up.
pub fn div_round_up(x: usize, y: usize) -> (r: usize)
    requires
        y > 0,
        x + y - 1 <= usize::MAX,
    ensures
        r == ceil_div(x as int, y as int),
        r * y >= x,
        r * y < x + y,
{
    let r = (x + (y - 1)) / y;
    proof {
        lemma_ceil_div_bounds(x as int, y as int);
    }
    r
}

/// `ceil_div(x, y)` chunks of size `y` cover `x`, and one chunk fewer would not.
pub proof fn lemma_ceil_div_bounds(x: int, y: int)
    requires
        x >= 0,
        y > 0,
    ensures
        ceil_div(x, y) * y >= x,
        ceil_div(x, y) * y < x + y,
        ceil_div(x, y) >= 0,
{
    let q = (x + y - 1) / y;
    let r = (x + y - 1) % y;
    assert(q * y + r == x + y - 1 && 0 <= r < y) by (nonlinear_arith)
        requires
            y > 0,
            q == (x + y - 1) / y,
            r == (x + y - 1) % y,
    ;
    assert(q >= 0) by (nonlinear_arith)
        requires
            y > 0,
            x >= 0,
            q == (x + y - 1) / y,
    ;
}

} // verus!
