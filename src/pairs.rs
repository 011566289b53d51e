//! Compound indices of unordered index pairs.
//!
//! An unordered pair `{i, j}` with `i >= j` gets the compound index
//! `tri(i) + j`, where `tri(i) = i * (i + 1) / 2`. Listing the pairs with
//! `i` ascending and, within one `i`, `j` ascending yields the compound
//! indices `0, 1, 2, ...` in order.
use vstd::prelude::*;

verus! {

/// The triangular number `0 + 1 + ... + i`.
pub open spec fn tri(i: nat) -> nat
    decreases i,
{
    if i == 0 {
        0
    } else {
        tri((i - 1) as nat) + i
    }
}

pub open spec fn max_of(a: int, b: int) -> int {
    if a >= b {
        a
    } else {
        b
    }
}

pub open spec fn min_of(a: int, b: int) -> int {
    if a >= b {
        b
    } else {
        a
    }
}

/// Compound index of the unordered pair `{i, j}`.
pub open spec fn pair(i: int, j: int) -> int {
    tri(max_of(i, j) as nat) + min_of(i, j)
}

/// Number of unordered pairs (diagonal included) over `n` indices.
pub open spec fn num_pairs(n: nat) -> nat {
    tri(n)
}

pub proof fn lemma_tri_closed_form(i: nat)
    ensures
        2 * tri(i) == i * (i + 1),
    decreases i,
{
    if i > 0 {
        lemma_tri_closed_form((i - 1) as nat);
        assert(2 * tri(i) == i * (i + 1)) by (nonlinear_arith)
            requires
                2 * tri((i - 1) as nat) == (i - 1) * i,
                tri(i) == tri((i - 1) as nat) + i,
        ;
    } else {
        assert(i * (i + 1) == 0) by (nonlinear_arith)
            requires
                i == 0,
        ;
    }
}

pub proof fn lemma_tri_monotone(a: nat, b: nat)
    requires
        a <= b,
    ensures
        tri(a) <= tri(b),
        a < b ==> tri(a) + a < tri(b),
    decreases b - a,
{
    if a < b {
        lemma_tri_monotone(a, (b - 1) as nat);
    }
}

/// Within the ordered range `j <= i`, the compound index determines the pair.
pub proof fn lemma_pair_injective(a: int, b: int, c: int, d: int)
    requires
        0 <= b <= a,
        0 <= d <= c,
        pair(a, b) == pair(c, d),
    ensures
        a == c,
        b == d,
{
    if a < c {
        lemma_tri_monotone(a as nat, c as nat);
    } else if c < a {
        lemma_tri_monotone(c as nat, a as nat);
    }
}

/// Compound indices over `n` indices stay below the number of pairs.
pub proof fn lemma_pair_bound(n: nat, i: int, j: int)
    requires
        0 <= j <= i < n,
    ensures
        pair(i, j) < num_pairs(n),
        num_pairs(n) <= n * n,
{
    lemma_tri_monotone((i + 1) as nat, n);
    lemma_tri_closed_form(n);
    assert(n * (n + 1) <= 2 * (n * n)) by (nonlinear_arith);
}

/// The compound index of `{i, j}`, for indices below `n`.
pub fn pair_index(n: usize, i: usize, j: usize) -> (r: usize)
    requires
        i < n,
        j < n,
        n * n <= usize::MAX,
    ensures
        r == pair(i as int, j as int),
{
    let (hi, lo) = if i >= j {
        (i, j)
    } else {
        (j, i)
    };
    proof {
        lemma_tri_closed_form(hi as nat);
        lemma_pair_bound(n as nat, hi as int, lo as int);
        assert(hi * (hi + 1) <= n * n) by (nonlinear_arith)
            requires
                hi < n,
        ;
    }
    let t = hi * (hi + 1) / 2;
    t + lo
}

} // verus!
