//! Rounding of lengths to block and page boundaries.
use vstd::prelude::*;

verus! {

/// How many blocks of `b` cover `a`.
pub open spec fn ceil_div(a: int, b: int) -> int {
    (a + b - 1) / b
}

/// The smallest multiple of `b` that is at least `a`.
pub open spec fn round_up(a: int, b: int) -> int {
    ceil_div(a, b) * b
}

/// The smaller of two numbers.
pub open spec fn least(a: int, b: int) -> int {
    if a <= b {
        a
    } else {
        b
    }
}

/// How many blocks of `b` cover `a`.
pub fn div_ceil(a: usize, b: usize) -> (r: usize)
    requires
        b > 0,
    ensures
        r == ceil_div(a as int, b as int),
        r <= a,
{
    let q: usize = a / b;
    let rem: usize = a % b;
    proof {
        ceil_div_splits(a as int, b as int);
    }
    if rem == 0 {
        q
    } else {
        q + 1
    }
}

/// Rounds a length up to a whole number of blocks.
pub fn align_up(value: usize, alignment: usize) -> (r: usize)
    requires
        alignment > 0,
        round_up(value as int, alignment as int) <= usize::MAX,
    ensures
        r == round_up(value as int, alignment as int),
{
    div_ceil(value, alignment) * alignment
}

/// The covering block count is the quotient, one more where there is a
/// remainder.
pub proof fn ceil_div_splits(a: int, b: int)
    requires
        a >= 0,
        b > 0,
    ensures
        ceil_div(a, b) == a / b + (if a % b == 0 {
            0int
        } else {
            1int
        }),
        ceil_div(a, b) <= a,
        0 <= a % b < b,
        a == (a / b) * b + a % b,
{
    let q = a / b;
    let m = a % b;
    vstd::arithmetic::div_mod::lemma_fundamental_div_mod(a, b);
    vstd::arithmetic::div_mod::lemma_mod_bound(a, b);
    assert(b * q == q * b) by (nonlinear_arith);
    if m == 0 {
        assert(a + b - 1 == q * b + (b - 1));
        vstd::arithmetic::div_mod::lemma_fundamental_div_mod_converse(a + b - 1, b, q, b - 1);
    } else {
        assert((q + 1) * b == q * b + b) by (nonlinear_arith);
        assert(a + b - 1 == (q + 1) * b + (m - 1));
        vstd::arithmetic::div_mod::lemma_fundamental_div_mod_converse(a + b - 1, b, q + 1, m - 1);
    }
    assert(q >= 0 && q * b >= q) by (nonlinear_arith)
        requires
            a >= 0,
            b > 0,
            q == a / b,
    ;
}

/// Rounding up gives the first multiple that is not below the length.
pub proof fn round_up_is_least_multiple(a: int, b: int)
    requires
        a >= 0,
        b > 0,
    ensures
        a <= round_up(a, b) < a + b,
        round_up(a, b) % b == 0,
        forall|k: int| a <= #[trigger] (k * b) ==> round_up(a, b) <= k * b,
{
    ceil_div_splits(a, b);
    let c = ceil_div(a, b);
    assert((a / b + 1) * b == (a / b) * b + b) by (nonlinear_arith);
    vstd::arithmetic::div_mod::lemma_mod_multiples_basic(c, b);
    assert forall|k: int| a <= #[trigger] (k * b) implies round_up(a, b) <= k * b by {
        if k < c {
            assert(k * b <= (c - 1) * b) by (nonlinear_arith)
                requires
                    k <= c - 1,
                    b > 0,
            ;
            assert((c - 1) * b == c * b - b) by (nonlinear_arith);
        } else {
            assert(k * b >= c * b) by (nonlinear_arith)
                requires
                    k >= c,
                    b > 0,
            ;
        }
    }
}

/// Covering more takes no fewer blocks.
pub proof fn ceil_div_monotone(a: int, c: int, b: int)
    requires
        0 <= a <= c,
        b > 0,
    ensures
        ceil_div(a, b) <= ceil_div(c, b),
{
    vstd::arithmetic::div_mod::lemma_div_is_ordered(a + b - 1, c + b - 1, b);
}

} // verus!
