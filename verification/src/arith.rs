//! Integer helpers: Rust's truncating division and the wrap-around index.

use vstd::prelude::*;

verus! {

/// Absolute value.
pub open spec fn abs(a: int) -> int {
    if a < 0 {
        -a
    } else {
        a
    }
}

/// Rust's integer division, which rounds toward zero.
pub open spec fn tdiv(a: int, b: int) -> int {
    if (a >= 0) == (b > 0) {
        abs(a) / abs(b)
    } else {
        -(abs(a) / abs(b))
    }
}

/// `a / b` as Rust computes it on `i64`.
pub fn trunc_div(a: i64, b: i64) -> (q: i64)
    requires
        b != 0,
        !(a == i64::MIN && b == -1),
    ensures
        q == tdiv(a as int, b as int),
{
    if b > 0 {
        a / b
    } else if b == i64::MIN {
        if a == i64::MIN {
            1
        } else {
            assert(abs(a as int) / abs(b as int) == 0) by (nonlinear_arith)
                requires
                    abs(a as int) < abs(b as int),
                    abs(a as int) >= 0,
            ;
            0
        }
    } else {
        let q = a / (-b);
        assert(q > i64::MIN) by (nonlinear_arith)
            requires
                -b >= 1,
                !(a == i64::MIN && b == -1),
                a < 0 ==> q == -((-(a as int)) / (-(b as int))),
                a >= 0 ==> q == (a as int) / (-(b as int)),
                i64::MIN <= a <= i64::MAX,
        {
            if a < 0 {
                if -b == 1 {
                    assert((-(a as int)) / 1 == -(a as int));
                } else {
                    assert((-(a as int)) / (-(b as int)) <= (-(a as int)) / 2) by {
                        vstd::arithmetic::div_mod::lemma_div_is_ordered_by_denominator(-(a as int), 2, -(b as int));
                    }
                }
            }
        }
        -q
    }
}

/// `((x % n) + n) % n` as Rust computes it: the remainder of `x` modulo a
/// positive `n`, taken in `0..n`.
pub fn wrap_index(x: i64, n: i64) -> (r: i64)
    requires
        n > 0,
    ensures
        r == (x as int) % (n as int),
        0 <= r < n,
{
    let r = x % n;
    proof {
        if x < 0 {
            lemma_neg_mod(x as int, n as int);
        }
    }
    if r < 0 {
        r + n
    } else {
        r
    }
}

proof fn lemma_neg_mod(x: int, n: int)
    requires
        n > 0,
        x < 0,
    ensures
        (-x) % n == 0 ==> x % n == 0,
        (-x) % n > 0 ==> x % n == n - (-x) % n,
{
    let m = (-x) % n;
    let q = (-x) / n;
    assert(-x == n * q + m) by (nonlinear_arith)
        requires
            n > 0,
            m == (-x) % n,
            q == (-x) / n,
    ;
    if m == 0 {
        assert(x == (-q) * n + 0) by (nonlinear_arith)
            requires
                -x == n * q + m,
                m == 0,
        ;
        vstd::arithmetic::div_mod::lemma_fundamental_div_mod_converse_mod(x, n, -q, 0);
    } else {
        assert(0 <= m < n) by {
            vstd::arithmetic::div_mod::lemma_mod_pos_bound(-x, n);
        }
        assert(x == (-q - 1) * n + (n - m)) by (nonlinear_arith)
            requires
                -x == n * q + m,
        ;
        vstd::arithmetic::div_mod::lemma_fundamental_div_mod_converse_mod(x, n, -q - 1, n - m);
    }
}

} // verus!
