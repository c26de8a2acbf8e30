//! Finite sums of integer-valued functions over `[0, n)`, with the
//! rearrangement lemmas the face-counting bound rests on: splitting a sum
//! into blocks, exchanging a double sum, and comparing sums pointwise.

use vstd::prelude::*;

verus! {

/// `f(0) + f(1) + ... + f(n - 1)`.
pub open spec fn sum_n(f: spec_fn(int) -> int, n: int) -> int
    decreases n,
{
    if n <= 0 {
        0
    } else {
        sum_n(f, n - 1) + f(n - 1)
    }
}

/// A sum of pointwise-bounded terms is bounded by the sum of the bounds.
pub proof fn lemma_sum_le(f: spec_fn(int) -> int, g: spec_fn(int) -> int, n: int)
    requires
        forall|i: int| 0 <= i < n ==> #[trigger] f(i) <= g(i),
    ensures
        sum_n(f, n) <= sum_n(g, n),
    decreases n,
{
    if n > 0 {
        lemma_sum_le(f, g, n - 1);
    }
}

/// A sum of terms bounded by a constant is bounded by `c * n`.
pub proof fn lemma_sum_le_const(f: spec_fn(int) -> int, n: int, c: int)
    requires
        n >= 0,
        forall|i: int| 0 <= i < n ==> #[trigger] f(i) <= c,
    ensures
        sum_n(f, n) <= c * n,
    decreases n,
{
    if n <= 0 {
        assert(c * n == 0) by (nonlinear_arith)
            requires
                n == 0,
        ;
    } else {
        lemma_sum_le_const(f, n - 1, c);
        assert(c * n == c * (n - 1) + c) by (nonlinear_arith);
    }
}

/// Sums add pointwise.
pub proof fn lemma_sum_add(f: spec_fn(int) -> int, g: spec_fn(int) -> int, h: spec_fn(int) -> int, n: int)
    requires
        forall|i: int| 0 <= i < n ==> #[trigger] h(i) == f(i) + g(i),
    ensures
        sum_n(h, n) == sum_n(f, n) + sum_n(g, n),
    decreases n,
{
    if n > 0 {
        lemma_sum_add(f, g, h, n - 1);
    }
}

/// A sum over `[0, a + b)` splits at `a`.
pub proof fn lemma_sum_split(f: spec_fn(int) -> int, a: int, b: int)
    requires
        a >= 0,
        b >= 0,
    ensures
        sum_n(f, a + b) == sum_n(f, a) + sum_n(|t: int| f(a + t), b),
    decreases b,
{
    if b > 0 {
        lemma_sum_split(f, a, b - 1);
        let g = |t: int| f(a + t);
        assert(g(b - 1) == f(a + b - 1));
    }
}

/// A sum over `b * m` terms regroups into `m` consecutive blocks of `b`.
pub proof fn lemma_sum_blocks(f: spec_fn(int) -> int, b: int, m: int)
    requires
        b >= 0,
        m >= 0,
    ensures
        sum_n(f, b * m) == sum_n(|k: int| sum_n(|t: int| f(b * k + t), b), m),
    decreases m,
{
    if m > 0 {
        lemma_sum_blocks(f, b, m - 1);
        assert(b * m == b * (m - 1) + b) by (nonlinear_arith);
        lemma_sum_split(f, b * (m - 1), b);
        let outer = |k: int| sum_n(|t: int| f(b * k + t), b);
        assert(sum_n(outer, m) == sum_n(outer, m - 1) + outer(m - 1));
        assert(sum_n(outer, m - 1) == sum_n(f, b * (m - 1)));
        assert(outer(m - 1) == sum_n(|t: int| f(b * (m - 1) + t), b));
        assert(sum_n(f, b * (m - 1) + b) == sum_n(f, b * (m - 1)) + sum_n(
            |t: int| f(b * (m - 1) + t),
            b,
        ));
    } else {
        assert(b * m == 0) by (nonlinear_arith)
            requires
                m == 0,
        ;
    }
}

/// A double sum exchanges its two indices.
pub proof fn lemma_sum_swap(h: spec_fn(int, int) -> int, m: int, n: int)
    requires
        m >= 0,
        n >= 0,
    ensures
        sum_n(|y: int| sum_n(|x: int| h(x, y), n), m) == sum_n(
            |x: int| sum_n(|y: int| h(x, y), m),
            n,
        ),
    decreases m,
{
    let rows = |y: int| sum_n(|x: int| h(x, y), n);
    let cols_m = |x: int| sum_n(|y: int| h(x, y), m);
    let cols_m1 = |x: int| sum_n(|y: int| h(x, y), m - 1);
    if m > 0 {
        lemma_sum_swap(h, m - 1, n);
        let last = |x: int| h(x, m - 1);
        assert forall|x: int| 0 <= x < n implies #[trigger] cols_m(x) == cols_m1(x) + last(x) by {}
        lemma_sum_add(cols_m1, last, cols_m, n);
        assert(rows(m - 1) == sum_n(last, n));
    } else {
        assert forall|x: int| 0 <= x < n implies #[trigger] cols_m(x) == 0 by {}
        lemma_sum_le(cols_m, |x: int| 0, n);
        lemma_sum_le(|x: int| 0, cols_m, n);
        lemma_sum_le_const(|x: int| 0, n, 0);
        lemma_sum_le(|x: int| 0, |x: int| 0, n);
        assert(sum_n(|x: int| 0, n) == 0) by {
            lemma_sum_zero(n);
        }
    }
}

/// The sum of the zero function vanishes.
pub proof fn lemma_sum_zero(n: int)
    ensures
        sum_n(|x: int| 0, n) == 0,
    decreases n,
{
    if n > 0 {
        lemma_sum_zero(n - 1);
    }
}

/// Pointwise-equal functions have equal sums.
pub proof fn lemma_sum_congruence(f: spec_fn(int) -> int, g: spec_fn(int) -> int, n: int)
    requires
        forall|i: int| 0 <= i < n ==> #[trigger] f(i) == g(i),
    ensures
        sum_n(f, n) == sum_n(g, n),
    decreases n,
{
    if n > 0 {
        lemma_sum_congruence(f, g, n - 1);
    }
}

/// A row of 32 cells admits at most 33 faces along one axis: `p(j)` and
/// `q(j)` are the indicator terms of the two opposite directions at cell
/// `j`, and a face toward the next cell excludes the next cell's face
/// back.
pub proof fn lemma_row_bound(p: spec_fn(int) -> int, q: spec_fn(int) -> int, k: int)
    requires
        0 <= k <= 32,
        forall|j: int| 0 <= j < 32 ==> 0 <= #[trigger] p(j) <= 1,
        forall|j: int| 0 <= j < 32 ==> 0 <= #[trigger] q(j) <= 1,
        forall|j: int| 1 <= j < 32 ==> #[trigger] q(j) + p(j - 1) <= 1,
    ensures
        k == 0 ==> sum_n(|j: int| p(j) + q(j), k) == 0,
        k > 0 ==> sum_n(|j: int| p(j) + q(j), k) <= k + p(k - 1),
        sum_n(|j: int| p(j) + q(j), k) <= 33,
    decreases k,
{
    let f = |j: int| p(j) + q(j);
    if k > 0 {
        lemma_row_bound(p, q, k - 1);
        assert(sum_n(f, k) == sum_n(f, k - 1) + p(k - 1) + q(k - 1));
    }
}

/// Two functions that agree off seven given points have sums that differ
/// exactly by the in-range point differences.
pub proof fn lemma_sum_eq_except7(
    f: spec_fn(int) -> int,
    g: spec_fn(int) -> int,
    n: int,
    p0: int,
    p1: int,
    p2: int,
    p3: int,
    p4: int,
    p5: int,
    p6: int,
)
    requires
        p0 != p1 && p0 != p2 && p0 != p3 && p0 != p4 && p0 != p5 && p0 != p6,
        p1 != p2 && p1 != p3 && p1 != p4 && p1 != p5 && p1 != p6,
        p2 != p3 && p2 != p4 && p2 != p5 && p2 != p6,
        p3 != p4 && p3 != p5 && p3 != p6,
        p4 != p5 && p4 != p6,
        p5 != p6,
        forall|i: int|
            (0 <= i < n && i != p0 && i != p1 && i != p2 && i != p3 && i != p4 && i != p5 && i
                != p6) ==> #[trigger] f(i) == g(i),
    ensures
        sum_n(g, n) == sum_n(f, n) + point_diff(f, g, n, p0) + point_diff(f, g, n, p1) + point_diff(
            f,
            g,
            n,
            p2,
        ) + point_diff(f, g, n, p3) + point_diff(f, g, n, p4) + point_diff(f, g, n, p5)
            + point_diff(f, g, n, p6),
    decreases n,
{
    if n > 0 {
        lemma_sum_eq_except7(f, g, n - 1, p0, p1, p2, p3, p4, p5, p6);
    }
}

/// The contribution of point `p` to the difference of two sums over
/// `[0, n)`.
pub open spec fn point_diff(f: spec_fn(int) -> int, g: spec_fn(int) -> int, n: int, p: int) -> int {
    if 0 <= p < n {
        g(p) - f(p)
    } else {
        0
    }
}

} // verus!
