//! The two-electron repulsion tensor, built from one evaluation per class
//! of the eight index permutations that leave `<ij|kl>` unchanged.
//!
//! A quadruple `(i, j, k, l)` is canonical when `i >= j`, `k >= l` and the
//! compound index of `{i, j}` is at least that of `{k, l}`. The canonical
//! values are computed into a triangular table indexed by the two compound
//! indices; the tensor is then read off that table, so that all eight
//! symmetric positions hold the same value.
use vstd::prelude::*;
use crate::pairs::{pair, pair_index, tri, num_pairs, lemma_pair_injective, lemma_pair_bound};

verus! {

/// `(i, j, k, l)` is the representative of its permutation class.
pub open spec fn is_canonical(n: nat, i: int, j: int, k: int, l: int) -> bool {
    &&& 0 <= j <= i < n
    &&& 0 <= l <= k < n
    &&& pair(k, l) <= pair(i, j)
}

/// The triangular table of canonical values: row `p` holds `p + 1` entries.
pub open spec fn is_canonical_table<T>(vals: &Vec<Vec<T>>, n: nat) -> bool {
    &&& vals.len() == num_pairs(n)
    &&& forall|p: int| 0 <= p < num_pairs(n) ==> #[trigger] vals[p].len() == p + 1
}

/// The table entry that position `(a, b, c, d)` of the tensor takes.
pub open spec fn table_value<T>(vals: &Vec<Vec<T>>, a: int, b: int, c: int, d: int) -> T {
    let p = pair(a, b);
    let q = pair(c, d);
    if p >= q {
        vals[p][q]
    } else {
        vals[q][p]
    }
}

/// `t` is an `n x n x n x n` array.
pub open spec fn is_tensor<T>(t: &Vec<Vec<Vec<Vec<T>>>>, n: nat) -> bool {
    &&& t.len() == n
    &&& forall|a: int| 0 <= a < n ==> #[trigger] t[a].len() == n
    &&& forall|a: int, b: int| 0 <= a < n && 0 <= b < n ==> #[trigger] t[a][b].len() == n
    &&& forall|a: int, b: int, c: int|
        0 <= a < n && 0 <= b < n && 0 <= c < n ==> #[trigger] t[a][b][c].len() == n
}

/// The eight permutational symmetries of the repulsion integrals:
/// `<ij|kl> = <ji|kl> = <ij|lk> = <ji|lk> = <kl|ij> = <lk|ij> = <kl|ji> = <lk|ji>`.
pub open spec fn has_eri_symmetry<T>(t: &Vec<Vec<Vec<Vec<T>>>>, n: nat) -> bool {
    forall|i: int, j: int, k: int, l: int|
        0 <= i < n && 0 <= j < n && 0 <= k < n && 0 <= l < n ==> {
            let v = #[trigger] t[i][j][k][l];
            &&& v == t[j][i][k][l]
            &&& v == t[i][j][l][k]
            &&& v == t[j][i][l][k]
            &&& v == t[k][l][i][j]
            &&& v == t[l][k][i][j]
            &&& v == t[k][l][j][i]
            &&& v == t[l][k][j][i]
        }
}

/// Row `pair(i, j)` of the canonical table: `contract(i, j, k, l)` for every
/// `k >= l` with `pair(k, l) <= pair(i, j)`, in compound-index order.
fn canonical_row<T: Copy, F: Fn(usize, usize, usize, usize) -> T>(
    n: usize,
    i: usize,
    j: usize,
    contract: &F,
) -> (row: Vec<T>)
    requires
        j <= i < n,
        forall|a: usize, b: usize, c: usize, d: usize|
            is_canonical(n as nat, a as int, b as int, c as int, d as int)
                ==> #[trigger] contract.requires((a, b, c, d)),
    ensures
        row.len() == pair(i as int, j as int) + 1,
        forall|c: int, d: int|
            is_canonical(n as nat, i as int, j as int, c, d) ==> contract.ensures(
                (i, j, c as usize, d as usize),
                #[trigger] row[pair(c, d)],
            ),
{
    let mut row: Vec<T> = Vec::new();
    let mut k: usize = 0;
    while k <= i
        invariant
            j <= i < n,
            k <= i + 1,
            forall|a: usize, b: usize, c: usize, d: usize|
                is_canonical(n as nat, a as int, b as int, c as int, d as int)
                    ==> #[trigger] contract.requires((a, b, c, d)),
            row.len() == (if k <= i {
                tri(k as nat) as int
            } else {
                pair(i as int, j as int) + 1
            }),
            forall|c: int, d: int|
                0 <= d <= c && pair(c, d) < row.len() ==> contract.ensures(
                    (i, j, c as usize, d as usize),
                    #[trigger] row[pair(c, d)],
                ),
        decreases i + 1 - k,
    {
        let last = if k < i {
            k
        } else {
            j
        };
        let mut l: usize = 0;
        while l <= last
            invariant
                j <= i < n,
                k <= i,
                last == (if k < i {
                    k
                } else {
                    j
                }),
                forall|a: usize, b: usize, c: usize, d: usize|
                    is_canonical(n as nat, a as int, b as int, c as int, d as int)
                        ==> #[trigger] contract.requires((a, b, c, d)),
                l <= last + 1,
                row.len() == tri(k as nat) + l,
                forall|c: int, d: int|
                    0 <= d <= c && pair(c, d) < row.len() ==> contract.ensures(
                        (i, j, c as usize, d as usize),
                        #[trigger] row[pair(c, d)],
                    ),
            decreases last + 1 - l,
        {
            proof {
                if k < i {
                    crate::pairs::lemma_tri_monotone((k + 1) as nat, i as nat);
                }
                assert(is_canonical(n as nat, i as int, j as int, k as int, l as int));
            }
            let v = contract(i, j, k, l);
            let ghost old_row = row@;
            row.push(v);
            proof {
                assert(pair(k as int, l as int) == old_row.len());
                assert forall|c: int, d: int|
                    0 <= d <= c && pair(c, d) < row.len() implies contract.ensures(
                    (i, j, c as usize, d as usize),
                    #[trigger] row[pair(c, d)],
                ) by {
                    if pair(c, d) == old_row.len() {
                        lemma_pair_injective(c, d, k as int, l as int);
                    } else {
                        assert(row[pair(c, d)] == old_row[pair(c, d)]);
                    }
                }
            }
            l = l + 1;
        }
        proof {
            if k < i {
                assert(tri((k + 1) as nat) == tri(k as nat) + k + 1);
            }
        }
        k = k + 1;
    }
    proof {
        assert forall|c: int, d: int|
            is_canonical(n as nat, i as int, j as int, c, d) implies 0 <= d <= c && pair(c, d)
            < row.len() by {}
    }
    row
}

/// The table of canonical values: entry `[pair(i, j)][pair(k, l)]` is
/// `contract(i, j, k, l)` for every canonical `(i, j, k, l)`. Each canonical
/// quadruple is evaluated exactly once.
pub fn canonical_values<T: Copy, F: Fn(usize, usize, usize, usize) -> T>(n: usize, contract: &F) -> (vals:
    Vec<Vec<T>>)
    requires
        forall|a: usize, b: usize, c: usize, d: usize|
            is_canonical(n as nat, a as int, b as int, c as int, d as int)
                ==> #[trigger] contract.requires((a, b, c, d)),
    ensures
        is_canonical_table(&vals, n as nat),
        forall|i: int, j: int, k: int, l: int|
            is_canonical(n as nat, i, j, k, l) ==> contract.ensures(
                (i as usize, j as usize, k as usize, l as usize),
                #[trigger] vals[pair(i, j)][pair(k, l)],
            ),
{
    let mut vals: Vec<Vec<T>> = Vec::new();
    let mut i: usize = 0;
    while i < n
        invariant
            i <= n,
            forall|a: usize, b: usize, c: usize, d: usize|
                is_canonical(n as nat, a as int, b as int, c as int, d as int)
                    ==> #[trigger] contract.requires((a, b, c, d)),
            vals.len() == tri(i as nat),
            forall|p: int| 0 <= p < vals.len() ==> #[trigger] vals[p].len() == p + 1,
            forall|a: int, b: int, c: int, d: int|
                is_canonical(n as nat, a, b, c, d) && pair(a, b) < vals.len() ==> contract.ensures(
                    (a as usize, b as usize, c as usize, d as usize),
                    #[trigger] vals[pair(a, b)][pair(c, d)],
                ),
        decreases n - i,
    {
        let mut j: usize = 0;
        while j <= i
            invariant
                i < n,
                j <= i + 1,
                forall|a: usize, b: usize, c: usize, d: usize|
                    is_canonical(n as nat, a as int, b as int, c as int, d as int)
                        ==> #[trigger] contract.requires((a, b, c, d)),
                vals.len() == tri(i as nat) + j,
                forall|p: int| 0 <= p < vals.len() ==> #[trigger] vals[p].len() == p + 1,
                forall|a: int, b: int, c: int, d: int|
                    is_canonical(n as nat, a, b, c, d) && pair(a, b) < vals.len()
                        ==> contract.ensures(
                        (a as usize, b as usize, c as usize, d as usize),
                        #[trigger] vals[pair(a, b)][pair(c, d)],
                    ),
            decreases i + 1 - j,
        {
            let row = canonical_row(n, i, j, contract);
            let ghost old_vals = vals@;
            vals.push(row);
            proof {
                assert forall|a: int, b: int, c: int, d: int|
                    is_canonical(n as nat, a, b, c, d) && pair(a, b) < vals.len() implies contract.ensures(
                    (a as usize, b as usize, c as usize, d as usize),
                    #[trigger] vals[pair(a, b)][pair(c, d)],
                ) by {
                    if pair(a, b) == old_vals.len() {
                        lemma_pair_injective(a, b, i as int, j as int);
                    } else {
                        assert(vals[pair(a, b)] == old_vals[pair(a, b)]);
                    }
                }
            }
            j = j + 1;
        }
        proof {
            assert(tri((i + 1) as nat) == tri(i as nat) + i + 1);
        }
        i = i + 1;
    }
    proof {
        assert forall|a: int, b: int, c: int, d: int|
            is_canonical(n as nat, a, b, c, d) implies pair(a, b) < vals.len() by {
            lemma_pair_bound(n as nat, a, b);
        }
    }
    vals
}

/// Reads position `(a, b, c, d)` of the tensor off the canonical table.
fn table_lookup<T: Copy>(n: usize, vals: &Vec<Vec<T>>, a: usize, b: usize, c: usize, d: usize) -> (r:
    T)
    requires
        n * n <= usize::MAX,
        a < n && b < n && c < n && d < n,
        is_canonical_table(vals, n as nat),
    ensures
        r == table_value(vals, a as int, b as int, c as int, d as int),
{
    let p = pair_index(n, a, b);
    let q = pair_index(n, c, d);
    proof {
        lemma_pair_bound(n as nat, crate::pairs::max_of(a as int, b as int), crate::pairs::min_of(a as int, b as int));
        lemma_pair_bound(n as nat, crate::pairs::max_of(c as int, d as int), crate::pairs::min_of(c as int, d as int));
        assert(vals[p as int].len() == p + 1);
        assert(vals[q as int].len() == q + 1);
    }
    if p >= q {
        vals[p][q]
    } else {
        vals[q][p]
    }
}

/// Entries `(a, b, c, 0..n)` of the tensor.
fn tensor_row<T: Copy>(n: usize, vals: &Vec<Vec<T>>, a: usize, b: usize, c: usize) -> (row: Vec<T>)
    requires
        n * n <= usize::MAX,
        a < n && b < n && c < n,
        is_canonical_table(vals, n as nat),
    ensures
        row.len() == n,
        forall|d: int| 0 <= d < n ==> #[trigger] row[d] == table_value(vals, a as int, b as int, c as int, d),
{
    let mut row: Vec<T> = Vec::new();
    let mut d: usize = 0;
    while d < n
        invariant
            n * n <= usize::MAX,
            a < n && b < n && c < n,
            is_canonical_table(vals, n as nat),
            d <= n,
            row.len() == d,
            forall|x: int| 0 <= x < d ==> #[trigger] row[x] == table_value(vals, a as int, b as int, c as int, x),
        decreases n - d,
    {
        let v = table_lookup(n, vals, a, b, c, d);
        row.push(v);
        d = d + 1;
    }
    row
}

/// Entries `(a, b, 0..n, 0..n)` of the tensor.
fn tensor_block<T: Copy>(n: usize, vals: &Vec<Vec<T>>, a: usize, b: usize) -> (block: Vec<Vec<T>>)
    requires
        n * n <= usize::MAX,
        a < n && b < n,
        is_canonical_table(vals, n as nat),
    ensures
        block.len() == n,
        forall|c: int| 0 <= c < n ==> #[trigger] block[c].len() == n,
        forall|c: int, d: int|
            0 <= c < n && 0 <= d < n ==> #[trigger] block[c][d] == table_value(vals, a as int, b as int, c, d),
{
    let mut block: Vec<Vec<T>> = Vec::new();
    let mut c: usize = 0;
    while c < n
        invariant
            n * n <= usize::MAX,
            a < n && b < n,
            is_canonical_table(vals, n as nat),
            c <= n,
            block.len() == c,
            forall|x: int| 0 <= x < c ==> #[trigger] block[x].len() == n,
            forall|x: int, y: int|
                0 <= x < c && 0 <= y < n ==> #[trigger] block[x][y] == table_value(vals, a as int, b as int, x, y),
        decreases n - c,
    {
        let row = tensor_row(n, vals, a, b, c);
        block.push(row);
        c = c + 1;
    }
    block
}

/// Entries `(a, 0..n, 0..n, 0..n)` of the tensor.
fn tensor_slab<T: Copy>(n: usize, vals: &Vec<Vec<T>>, a: usize) -> (slab: Vec<Vec<Vec<T>>>)
    requires
        n * n <= usize::MAX,
        a < n,
        is_canonical_table(vals, n as nat),
    ensures
        slab.len() == n,
        forall|b: int| 0 <= b < n ==> #[trigger] slab[b].len() == n,
        forall|b: int, c: int| 0 <= b < n && 0 <= c < n ==> #[trigger] slab[b][c].len() == n,
        forall|b: int, c: int, d: int|
            0 <= b < n && 0 <= c < n && 0 <= d < n ==> #[trigger] slab[b][c][d] == table_value(
                vals,
                a as int,
                b,
                c,
                d,
            ),
{
    let mut slab: Vec<Vec<Vec<T>>> = Vec::new();
    let mut b: usize = 0;
    while b < n
        invariant
            n * n <= usize::MAX,
            a < n,
            is_canonical_table(vals, n as nat),
            b <= n,
            slab.len() == b,
            forall|x: int| 0 <= x < b ==> #[trigger] slab[x].len() == n,
            forall|x: int, y: int| 0 <= x < b && 0 <= y < n ==> #[trigger] slab[x][y].len() == n,
            forall|x: int, y: int, z: int|
                0 <= x < b && 0 <= y < n && 0 <= z < n ==> #[trigger] slab[x][y][z] == table_value(
                    vals,
                    a as int,
                    x,
                    y,
                    z,
                ),
        decreases n - b,
    {
        let block = tensor_block(n, vals, a, b);
        slab.push(block);
        b = b + 1;
    }
    slab
}

/// Builds the `n x n x n x n` repulsion tensor over `n` basis functions.
///
/// `contract(i, j, k, l)` contracts the primitive repulsion integrals of
/// basis functions `i, j, k, l`. It is called once for each canonical
/// quadruple and its value is shared by all eight symmetric positions.
pub fn build_eri_tensor_symmetric<T: Copy, F: Fn(usize, usize, usize, usize) -> T>(
    n: usize,
    contract: F,
) -> (eri: Vec<Vec<Vec<Vec<T>>>>)
    requires
        n * n <= usize::MAX,
        forall|a: usize, b: usize, c: usize, d: usize|
            is_canonical(n as nat, a as int, b as int, c as int, d as int)
                ==> #[trigger] contract.requires((a, b, c, d)),
    ensures
        is_tensor(&eri, n as nat),
        has_eri_symmetry(&eri, n as nat),
        forall|i: int, j: int, k: int, l: int|
            is_canonical(n as nat, i, j, k, l) ==> contract.ensures(
                (i as usize, j as usize, k as usize, l as usize),
                #[trigger] eri[i][j][k][l],
            ),
{
    let vals = canonical_values(n, &contract);
    let mut eri: Vec<Vec<Vec<Vec<T>>>> = Vec::new();
    let mut a: usize = 0;
    while a < n
        invariant
            n * n <= usize::MAX,
            is_canonical_table(&vals, n as nat),
            a <= n,
            eri.len() == a,
            forall|x: int| 0 <= x < a ==> #[trigger] eri[x].len() == n,
            forall|x: int, y: int| 0 <= x < a && 0 <= y < n ==> #[trigger] eri[x][y].len() == n,
            forall|x: int, y: int, z: int|
                0 <= x < a && 0 <= y < n && 0 <= z < n ==> #[trigger] eri[x][y][z].len() == n,
            forall|x: int, y: int, z: int, w: int|
                0 <= x < a && 0 <= y < n && 0 <= z < n && 0 <= w < n ==> #[trigger] eri[x][y][z][w]
                    == table_value(&vals, x, y, z, w),
        decreases n - a,
    {
        let slab = tensor_slab(n, &vals, a);
        eri.push(slab);
        a = a + 1;
    }
    eri
}

} // verus!
