//! Square matrices stored as rows, and the one-electron matrix builder.
use vstd::prelude::*;

verus! {

/// `m` has `n` rows of `n` entries each.
pub open spec fn is_square<T>(m: &Vec<Vec<T>>, n: nat) -> bool {
    &&& m.len() == n
    &&& forall|i: int| 0 <= i < n ==> #[trigger] m[i].len() == n
}

/// `m` is square of order `n` and equals its transpose.
pub open spec fn is_symmetric<T>(m: &Vec<Vec<T>>, n: nat) -> bool {
    &&& is_square(m, n)
    &&& forall|i: int, j: int| 0 <= i < n && 0 <= j < n ==> #[trigger] m[i][j] == m[j][i]
}

/// The lower triangle `{(i, j) : j <= i < n}` of `integral`, row by row.
fn lower_triangle<T: Copy, F: Fn(usize, usize) -> T>(n: usize, integral: &F) -> (lower: Vec<
    Vec<T>,
>)
    requires
        forall|i: usize, j: usize| j <= i < n ==> #[trigger] integral.requires((i, j)),
    ensures
        lower.len() == n,
        forall|i: int| 0 <= i < n ==> #[trigger] lower[i].len() == i + 1,
        forall|i: int, j: int|
            0 <= j <= i < n ==> integral.ensures((i as usize, j as usize), #[trigger] lower[i][j]),
{
    let mut lower: Vec<Vec<T>> = Vec::new();
    let mut i: usize = 0;
    while i < n
        invariant
            i <= n,
            lower.len() == i,
            forall|i: usize, j: usize| j <= i < n ==> #[trigger] integral.requires((i, j)),
            forall|a: int| 0 <= a < i ==> #[trigger] lower[a].len() == a + 1,
            forall|a: int, b: int|
                0 <= b <= a < i ==> integral.ensures((a as usize, b as usize), #[trigger] lower[a][b]),
        decreases n - i,
    {
        let mut row: Vec<T> = Vec::new();
        let mut j: usize = 0;
        while j <= i
            invariant
                i < n,
                j <= i + 1,
                row.len() == j,
                forall|i: usize, j: usize| j <= i < n ==> #[trigger] integral.requires((i, j)),
                forall|b: int| 0 <= b < j ==> integral.ensures((i, b as usize), #[trigger] row[b]),
            decreases i + 1 - j,
        {
            let v = integral(i, j);
            row.push(v);
            j = j + 1;
        }
        lower.push(row);
        i = i + 1;
    }
    lower
}

/// Builds the one-electron matrices over `n` basis functions.
///
/// `integral(i, j)` contracts the primitive integrals of basis functions `i`
/// and `j` (overlap, kinetic and nuclear attraction together, so that the
/// kinetic term can reuse the overlap of the same primitive pair). It is
/// evaluated once per unordered pair, on `j <= i`, and the result is
/// mirrored, so the matrix is symmetric by construction.
pub fn build_one_electron_matrices<T: Copy, F: Fn(usize, usize) -> T>(n: usize, integral: F) -> (m:
    Vec<Vec<T>>)
    requires
        forall|i: usize, j: usize| j <= i < n ==> #[trigger] integral.requires((i, j)),
    ensures
        is_symmetric(&m, n as nat),
        forall|i: int, j: int|
            0 <= j <= i < n ==> integral.ensures((i as usize, j as usize), #[trigger] m[i][j]),
{
    let lower = lower_triangle(n, &integral);
    let mut m: Vec<Vec<T>> = Vec::new();
    let mut i: usize = 0;
    while i < n
        invariant
            i <= n,
            m.len() == i,
            lower.len() == n,
            forall|a: int| 0 <= a < n ==> #[trigger] lower[a].len() == a + 1,
            forall|a: int| 0 <= a < i ==> #[trigger] m[a].len() == n,
            forall|a: int, b: int|
                0 <= a < i && 0 <= b < n ==> #[trigger] m[a][b] == (if b <= a {
                    lower[a][b]
                } else {
                    lower[b][a]
                }),
        decreases n - i,
    {
        let mut row: Vec<T> = Vec::new();
        let mut j: usize = 0;
        while j < n
            invariant
                i < n,
                j <= n,
                row.len() == j,
                lower.len() == n,
                forall|a: int| 0 <= a < n ==> #[trigger] lower[a].len() == a + 1,
                forall|b: int|
                    0 <= b < j ==> #[trigger] row[b] == (if b <= i {
                        lower[i as int][b]
                    } else {
                        lower[b][i as int]
                    }),
            decreases n - j,
        {
            assert(lower[i as int].len() == i + 1);
            assert(lower[j as int].len() == j + 1);
            let v = if j <= i {
                lower[i][j]
            } else {
                lower[j][i]
            };
            row.push(v);
            j = j + 1;
        }
        m.push(row);
        i = i + 1;
    }
    m
}

} // verus!
