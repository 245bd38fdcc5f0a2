//! Exact comparison of fractions whose cross products may not fit in a machine word.
use vstd::prelude::*;

verus! {

proof fn lemma_quotients_decide(a: int, b: int, c: int, d: int, q1: int, r1: int, q2: int, r2: int)
    requires
        b > 0,
        d > 0,
        a == q1 * b + r1,
        0 <= r1 < b,
        c == q2 * d + r2,
        0 <= r2 < d,
        q1 > q2,
        q2 >= 0,
    ensures
        a * d > c * b,
{
    assert(a * d >= q1 * b * d) by (nonlinear_arith)
        requires
            a == q1 * b + r1,
            r1 >= 0,
            d > 0,
    ;
    assert(c < (q2 + 1) * d) by (nonlinear_arith)
        requires
            c == q2 * d + r2,
            r2 < d,
    ;
    assert(c * b < (q2 + 1) * d * b) by (nonlinear_arith)
        requires
            c < (q2 + 1) * d,
            b > 0,
    ;
    assert((q2 + 1) * d * b <= q1 * b * d) by (nonlinear_arith)
        requires
            q2 + 1 <= q1,
            b > 0,
            d > 0,
    ;
}

proof fn lemma_remainders_decide(a: int, b: int, c: int, d: int, q: int, r1: int, r2: int)
    requires
        a == q * b + r1,
        c == q * d + r2,
    ensures
        a * d - c * b == r1 * d - r2 * b,
{
    assert(a * d == q * b * d + r1 * d) by (nonlinear_arith)
        requires
            a == q * b + r1,
    ;
    assert(c * b == q * d * b + r2 * b) by (nonlinear_arith)
        requires
            c == q * d + r2,
    ;
    assert(q * b * d == q * d * b) by (nonlinear_arith);
}

/// Whether `a / b > c / d`, decided without forming `a * d` or `c * b`.
pub fn fraction_greater(a: u128, b: u128, c: u128, d: u128) -> (r: bool)
    requires
        b > 0,
        d > 0,
    ensures
        r == (a * d > c * b),
    decreases b + d,
{
    let q1 = a / b;
    let r1 = a % b;
    let q2 = c / d;
    let r2 = c % d;
    assert(a == q1 * b + r1) by (nonlinear_arith)
        requires
            q1 == a / b,
            r1 == a % b,
            b > 0,
    ;
    assert(c == q2 * d + r2) by (nonlinear_arith)
        requires
            q2 == c / d,
            r2 == c % d,
            d > 0,
    ;
    if q1 != q2 {
        proof {
            if q1 > q2 {
                lemma_quotients_decide(a as int, b as int, c as int, d as int, q1 as int, r1 as int, q2 as int, r2 as int);
            } else {
                lemma_quotients_decide(c as int, d as int, a as int, b as int, q2 as int, r2 as int, q1 as int, r1 as int);
            }
        }
        return q1 > q2;
    }
    proof {
        lemma_remainders_decide(a as int, b as int, c as int, d as int, q1 as int, r1 as int, r2 as int);
    }
    if r2 == 0 {
        assert(r1 * d > 0 <==> r1 > 0) by (nonlinear_arith)
            requires
                d > 0,
                r1 >= 0,
        ;
        assert(r2 * b == 0) by (nonlinear_arith)
            requires
                r2 == 0,
        ;
        return r1 > 0;
    }
    if r1 == 0 {
        assert(r2 * b > 0) by (nonlinear_arith)
            requires
                b > 0,
                r2 > 0,
        ;
        assert(r1 * d == 0) by (nonlinear_arith)
            requires
                r1 == 0,
        ;
        return false;
    }
    let r = fraction_greater(d, r2, b, r1);
    assert(d * r1 == r1 * d && b * r2 == r2 * b) by (nonlinear_arith);
    r
}

} // verus!
