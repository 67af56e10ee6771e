use vstd::prelude::*;

verus! {

pub open spec fn spec_min(a: int, b: int) -> int {
    if a <= b {
        a
    } else {
        b
    }
}

pub open spec fn spec_max(a: int, b: int) -> int {
    if a >= b {
        a
    } else {
        b
    }
}

pub fn min_usize(a: usize, b: usize) -> (r: usize)
    ensures
        r == spec_min(a as int, b as int),
{
    if a <= b {
        a
    } else {
        b
    }
}

pub fn max_usize(a: usize, b: usize) -> (r: usize)
    ensures
        r == spec_max(a as int, b as int),
{
    if a >= b {
        a
    } else {
        b
    }
}

/// `a * b`, or `usize::MAX` when the product does not fit.
pub open spec fn spec_sat_mul(a: int, b: int) -> int {
    if a * b > usize::MAX {
        usize::MAX as int
    } else {
        a * b
    }
}

pub fn sat_mul(a: usize, b: usize) -> (r: usize)
    ensures
        r == spec_sat_mul(a as int, b as int),
{
    if b == 0 {
        assert(a * b == 0) by (nonlinear_arith)
            requires
                b == 0,
        ;
        return 0;
    }
    if a > usize::MAX / b {
        assert(a * b > usize::MAX) by (nonlinear_arith)
            requires
                b > 0,
                a > usize::MAX / b,
        ;
        usize::MAX
    } else {
        assert(a * b <= usize::MAX) by (nonlinear_arith)
            requires
                b > 0,
                a <= usize::MAX / b,
        ;
        a * b
    }
}

/// `a + b`, saturating at `usize::MAX`.
pub open spec fn spec_sat_add_usize(a: int, b: int) -> int {
    if a + b > usize::MAX { usize::MAX as int } else { a + b }
}

pub fn sat_add(a: usize, b: usize) -> (r: usize)
    ensures
        r == spec_sat_add_usize(a as int, b as int),
{
    a.saturating_add(b)
}

pub fn sat_sub(a: usize, b: usize) -> (r: usize)
    ensures
        r == (if a < b { 0 } else { a - b }),
{
    a.saturating_sub(b)
}

} // verus!
