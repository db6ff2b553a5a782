//! Symmetric matrices built from the values of their strict upper triangle,
//! such as a correlation matrix whose off-diagonal entries are computed
//! once per pair of series and whose diagonal is one.
//!
//! The pairs `(i, j)` with `i < j < n` are taken row by row: `(0, 1)`,
//! `(0, 2)`, ..., `(0, n - 1)`, `(1, 2)`, ..., `(n - 2, n - 1)`.
use crate::table::table_view;
use vstd::arithmetic::div_mod::lemma_fundamental_div_mod_converse;
use vstd::prelude::*;

verus! {

/// Number of pairs `(r, c)` with `r < c < n` whose row `r` is before `i`.
pub open spec fn pairs_before(n: int, i: int) -> int
    decreases i,
{
    if i <= 0 {
        0
    } else {
        pairs_before(n, i - 1) + (n - i)
    }
}

/// Number of pairs `(i, j)` with `i < j < n`.
pub open spec fn pair_count(n: nat) -> int {
    pairs_before(n as int, n as int)
}

/// Position of the pair `(i, j)`, `i < j < n`, in the row-by-row order.
pub open spec fn pair_index(n: int, i: int, j: int) -> int {
    pairs_before(n, i) + (j - i - 1)
}

/// The `n` by `n` matrix with `diag` on its diagonal and `values[k]` at both
/// `(i, j)` and `(j, i)` where `(i, j)` is pair number `k`.
pub open spec fn spec_symmetric<T>(n: nat, diag: T, values: Seq<T>) -> Seq<Seq<T>> {
    Seq::new(
        n,
        |i: int|
            Seq::new(
                n,
                |j: int|
                    if i == j {
                        diag
                    } else if i < j {
                        values[pair_index(n as int, i, j)]
                    } else {
                        values[pair_index(n as int, j, i)]
                    },
            ),
    )
}

/// Rows further down start further on.
pub proof fn lemma_pairs_before_monotonic(n: int, i: int, m: int)
    requires
        0 <= i <= m <= n,
    ensures
        pairs_before(n, i) <= pairs_before(n, m),
    decreases m - i,
{
    if i < m {
        lemma_pairs_before_monotonic(n, i, m - 1);
    }
}

/// Closed form: twice the number of pairs before row `i` is
/// `2 * i * n - i * (i + 1)`.
pub proof fn lemma_pairs_before_closed(n: int, i: int)
    requires
        0 <= i,
    ensures
        2 * pairs_before(n, i) == 2 * i * n - i * (i + 1),
    decreases i,
{
    if i > 0 {
        lemma_pairs_before_closed(n, i - 1);
        assert(2 * pairs_before(n, i) == 2 * i * n - i * (i + 1)) by (nonlinear_arith)
            requires
                2 * pairs_before(n, i - 1) == 2 * (i - 1) * n - (i - 1) * (i - 1 + 1),
                pairs_before(n, i) == pairs_before(n, i - 1) + (n - i),
        ;
    } else {
        assert(2 * i * n - i * (i + 1) == 0) by (nonlinear_arith)
            requires
                i == 0,
        ;
    }
}

/// There are `n * (n - 1) / 2` pairs `(i, j)` with `i < j < n`: twice their
/// number is `n * (n - 1)`.
pub proof fn lemma_pair_count(n: nat)
    ensures
        2 * pair_count(n) == n * (n - 1),
{
    lemma_pairs_before_closed(n as int, n as int);
    assert(2 * (n as int) * n - n * (n + 1) == n * (n - 1)) by (nonlinear_arith);
}

/// Pair `(i, j)`, `i < j < n`, is number `(2 i n - i (i + 1)) / 2 + (j - i - 1)`
/// in the row-by-row order: all the pairs of the rows before `i`, then those
/// of row `i` with a smaller second index.
pub proof fn lemma_pair_index_closed(n: int, i: int, j: int)
    requires
        0 <= i < j < n,
    ensures
        pair_index(n, i, j) == (2 * i * n - i * (i + 1)) / 2 + (j - i - 1),
{
    lemma_pairs_before_closed(n, i);
    lemma_fundamental_div_mod_converse(2 * i * n - i * (i + 1), 2, pairs_before(n, i), 0);
}

/// Pair `(i, j)`, `i < j < n`, has a position below the number of pairs, and
/// different pairs have different positions.
pub proof fn lemma_pair_index_bounds(n: int, i: int, j: int)
    requires
        0 <= i < j < n,
    ensures
        pairs_before(n, i) <= pair_index(n, i, j) < pairs_before(n, i + 1),
        0 <= pair_index(n, i, j) < pairs_before(n, n),
{
    lemma_pairs_before_monotonic(n, 0, i);
    lemma_pairs_before_monotonic(n, i + 1, n);
}

/// The pairs `(i, j)` with `i < j < n`, row by row.
pub fn upper_pairs(n: usize) -> (r: Vec<(usize, usize)>)
    requires
        pair_count(n as nat) <= usize::MAX,
    ensures
        r.len() == pair_count(n as nat),
        forall|k: int| 0 <= k < r.len() ==> #[trigger] r@[k].0 < r@[k].1 < n,
        forall|i: int, j: int|
            0 <= i < j < n ==> #[trigger] r@[pair_index(n as int, i, j)] == (i as usize, j as usize),
        2 * r.len() == n * (n - 1),
        forall|a: int, b: int|
            0 <= a < b < r.len() ==> #[trigger] r@[a].0 < #[trigger] r@[b].0 || (r@[a].0 == r@[b].0
                && r@[a].1 < r@[b].1),
{
    let mut out: Vec<(usize, usize)> = Vec::new();
    for i in 0..n
        invariant
            pair_count(n as nat) <= usize::MAX,
            out.len() == pairs_before(n as int, i as int),
            forall|k: int| 0 <= k < out.len() ==> #[trigger] out@[k].0 < out@[k].1 < n,
            forall|a: int, b: int|
                0 <= a < b < n && a < i ==> #[trigger] out@[pair_index(n as int, a, b)] == (
                    a as usize,
                    b as usize,
                ),
            forall|k: int| 0 <= k < out.len() ==> #[trigger] out@[k].0 < i,
            forall|a: int, b: int|
                0 <= a < b < out.len() ==> #[trigger] out@[a].0 < #[trigger] out@[b].0 || (out@[a].0
                    == out@[b].0 && out@[a].1 < out@[b].1),
    {
        proof {
            lemma_pairs_before_monotonic(n as int, i + 1, n as int);
            lemma_pairs_before_monotonic(n as int, 0, i as int);
        }
        let mut j = i + 1;
        while j < n
            invariant
                i < n,
                i + 1 <= j <= n,
                pairs_before(n as int, i + 1) <= usize::MAX,
                pairs_before(n as int, i + 1) == pairs_before(n as int, i as int) + (n - i - 1),
                pairs_before(n as int, i as int) >= 0,
                out.len() == pairs_before(n as int, i as int) + (j - i - 1),
                forall|k: int| 0 <= k < out.len() ==> #[trigger] out@[k].0 < out@[k].1 < n,
                forall|a: int, b: int|
                    0 <= a < b < n && (a < i || (a == i && b < j)) ==> #[trigger] out@[pair_index(
                        n as int,
                        a,
                        b,
                    )] == (a as usize, b as usize),
                forall|k: int|
                    0 <= k < out.len() ==> #[trigger] out@[k].0 < i || (out@[k].0 == i && out@[k].1
                        < j),
                forall|a: int, b: int|
                    0 <= a < b < out.len() ==> #[trigger] out@[a].0 < #[trigger] out@[b].0 || (
                    out@[a].0 == out@[b].0 && out@[a].1 < out@[b].1),
            decreases n - j,
        {
            proof {
                assert forall|a: int, b: int| 0 <= a < b < n && a < i implies pair_index(
                    n as int,
                    a,
                    b,
                ) < out.len() by {
                    lemma_pair_index_bounds(n as int, a, b);
                    lemma_pairs_before_monotonic(n as int, a + 1, i as int);
                }
            }
            let ghost before = out@;
            out.push((i, j));
            proof {
                assert forall|a: int, b: int|
                    0 <= a < b < n && (a < i || (a == i && b < j + 1)) implies #[trigger] out@[pair_index(
                    n as int,
                    a,
                    b,
                )] == (a as usize, b as usize) by {
                    let idx = pair_index(n as int, a, b);
                    if a == i && b == j {
                        assert(idx == before.len());
                        assert(out@[idx] == (i, j));
                    } else {
                        if a < i {
                            lemma_pair_index_bounds(n as int, a, b);
                            lemma_pairs_before_monotonic(n as int, a + 1, i as int);
                        }
                        assert(idx < before.len());
                        assert(before[idx] == (a as usize, b as usize));
                        assert(out@[idx] == before[idx]);
                    }
                }
                assert forall|k: int| 0 <= k < out.len() implies #[trigger] out@[k].0 < i || (
                out@[k].0 == i && out@[k].1 < j + 1) by {
                    if k < before.len() {
                        assert(out@[k] == before[k]);
                    }
                }
                assert forall|a: int, b: int| 0 <= a < b < out.len() implies #[trigger] out@[a].0
                    < #[trigger] out@[b].0 || (out@[a].0 == out@[b].0 && out@[a].1 < out@[b].1) by {
                    assert(out@[a] == before[a]);
                    if b < before.len() {
                        assert(out@[b] == before[b]);
                    }
                }
            }
            j = j + 1;
        }
    }
    proof {
        lemma_pair_count(n as nat);
    }
    out
}

/// The `n` by `n` symmetric matrix with `diag` on its diagonal and
/// `values[k]` at `(i, j)` and at `(j, i)`, where `(i, j)` is pair number `k`
/// of `upper_pairs(n)`.
pub fn symmetric_from_upper<T: Copy>(n: usize, diag: T, values: &Vec<T>) -> (r: Vec<Vec<T>>)
    requires
        values.len() == pair_count(n as nat),
    ensures
        table_view(r@) == spec_symmetric(n as nat, diag, values@),
        r.len() == n,
        forall|i: int| 0 <= i < n ==> #[trigger] r@[i]@.len() == n,
        forall|i: int| 0 <= i < n ==> #[trigger] r@[i]@[i] == diag,
        forall|i: int, j: int| 0 <= i < n && 0 <= j < n ==> #[trigger] r@[i]@[j] == r@[j]@[i],
        forall|i: int, j: int|
            0 <= i < j < n ==> #[trigger] r@[i]@[j] == values@[pair_index(n as int, i, j)],
        forall|i: int, j: int|
            0 <= i < j < n ==> #[trigger] r@[j]@[i] == values@[(2 * i * n - i * (i + 1)) / 2 + (j
                - i - 1)],
        forall|i: int, j: int|
            0 <= i < j < n ==> #[trigger] r@[i]@[j] == values@[(2 * i * n - i * (i + 1)) / 2 + (j
                - i - 1)],
{
    let ghost target = spec_symmetric(n as nat, diag, values@);
    let mut starts: Vec<usize> = Vec::new();
    let mut s: usize = 0;
    for i in 0..n
        invariant
            values.len() == pair_count(n as nat),
            starts.len() == i,
            s == pairs_before(n as int, i as int),
            forall|c: int| 0 <= c < i ==> #[trigger] starts@[c] == pairs_before(n as int, c),
    {
        proof {
            lemma_pairs_before_monotonic(n as int, i + 1, n as int);
        }
        starts.push(s);
        s = s + (n - i - 1);
    }
    let mut out: Vec<Vec<T>> = Vec::new();
    for i in 0..n
        invariant
            values.len() == pair_count(n as nat),
            starts.len() == n,
            forall|c: int| 0 <= c < n ==> #[trigger] starts@[c] == pairs_before(n as int, c),
            target == spec_symmetric(n as nat, diag, values@),
            out.len() == i,
            forall|c: int| 0 <= c < i ==> #[trigger] out@[c]@ == target[c],
    {
        let mut row: Vec<T> = Vec::new();
        for j in 0..n
            invariant
                i < n,
                values.len() == pair_count(n as nat),
                starts.len() == n,
                forall|c: int| 0 <= c < n ==> #[trigger] starts@[c] == pairs_before(n as int, c),
                target == spec_symmetric(n as nat, diag, values@),
                row.len() == j,
                forall|m: int| 0 <= m < j ==> #[trigger] row@[m] == target[i as int][m],
        {
            if i == j {
                row.push(diag);
            } else if i < j {
                proof {
                    lemma_pair_index_bounds(n as int, i as int, j as int);
                }
                row.push(values[starts[i] + (j - i - 1)]);
            } else {
                proof {
                    lemma_pair_index_bounds(n as int, j as int, i as int);
                }
                row.push(values[starts[j] + (i - j - 1)]);
            }
        }
        assert(row@ =~= target[i as int]);
        out.push(row);
    }
    assert(table_view(out@) =~= target);
    assert forall|i: int, j: int| 0 <= i < n && 0 <= j < n implies #[trigger] out@[i]@[j]
        == out@[j]@[i] by {
        assert(out@[i]@ == target[i]);
        assert(out@[j]@ == target[j]);
    }
    assert forall|i: int| 0 <= i < n implies #[trigger] out@[i]@[i] == diag by {
        assert(out@[i]@ == target[i]);
    }
    assert forall|i: int, j: int| 0 <= i < j < n implies #[trigger] out@[i]@[j]
        == values@[pair_index(n as int, i, j)] by {
        assert(out@[i]@ == target[i]);
    }
    assert forall|i: int| 0 <= i < n implies #[trigger] out@[i]@.len() == n by {
        assert(out@[i]@ == target[i]);
    }
    assert forall|i: int, j: int| 0 <= i < j < n implies #[trigger] out@[i]@[j]
        == values@[(2 * i * n - i * (i + 1)) / 2 + (j - i - 1)] by {
        lemma_pair_index_closed(n as int, i, j);
        assert(out@[i]@ == target[i]);
    }
    assert forall|i: int, j: int| 0 <= i < j < n implies #[trigger] out@[j]@[i]
        == values@[(2 * i * n - i * (i + 1)) / 2 + (j - i - 1)] by {
        lemma_pair_index_closed(n as int, i, j);
        assert(out@[i]@ == target[i]);
        assert(out@[j]@ == target[j]);
    }
    out
}

} // verus!
