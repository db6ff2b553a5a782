//! Tables of samples held as rows (one row per observation, one entry per
//! coordinate): reading them column by column, and laying them out as a
//! dense matrix.
use vstd::prelude::*;

verus! {

/// The rows of a table, each taken by its view.
pub open spec fn table_view<T>(rows: Seq<Vec<T>>) -> Seq<Seq<T>> {
    rows.map_values(|r: Vec<T>| r@)
}

/// Every row has at least `d` entries.
pub open spec fn rows_reach<T>(rows: Seq<Seq<T>>, d: nat) -> bool {
    forall|k: int| 0 <= k < rows.len() ==> #[trigger] rows[k].len() >= d
}

/// Every row has exactly `d` entries.
pub open spec fn is_rectangular<T>(rows: Seq<Seq<T>>, d: nat) -> bool {
    forall|k: int| 0 <= k < rows.len() ==> #[trigger] rows[k].len() == d
}

/// The first `d` columns of a table: column `i` holds entry `i` of every row,
/// in row order.
pub open spec fn spec_columns<T>(rows: Seq<Seq<T>>, d: nat) -> Seq<Seq<T>> {
    Seq::new(d, |i: int| Seq::new(rows.len(), |k: int| rows[k][i]))
}

/// The table as a dense `rows.len()` by `d` matrix: entries a row lacks are
/// `fill`.
pub open spec fn spec_padded<T>(rows: Seq<Seq<T>>, d: nat, fill: T) -> Seq<Seq<T>> {
    Seq::new(
        rows.len(),
        |i: int| Seq::new(d, |j: int| if j < rows[i].len() { rows[i][j] } else { fill }),
    )
}

/// Column `i` holds entry `i` of every row, in row order.
pub proof fn lemma_columns_entries<T>(rows: Seq<Seq<T>>, d: nat)
    ensures
        spec_columns(rows, d).len() == d,
        forall|i: int| 0 <= i < d ==> #[trigger] spec_columns(rows, d)[i].len() == rows.len(),
        forall|i: int, k: int|
            0 <= i < d && 0 <= k < rows.len() ==> #[trigger] spec_columns(rows, d)[i][k]
                == rows[k][i],
{
}

/// Reading a rectangular table by columns twice gives the table back.
pub proof fn lemma_columns_twice<T>(rows: Seq<Seq<T>>, d: nat)
    requires
        is_rectangular(rows, d),
    ensures
        spec_columns(spec_columns(rows, d), rows.len()) == rows,
{
    let once = spec_columns(rows, d);
    let twice = spec_columns(once, rows.len());
    assert forall|k: int| 0 <= k < rows.len() implies #[trigger] twice[k] =~= rows[k] by {
        assert(rows[k].len() == d);
    }
    assert(twice =~= rows);
}

/// A rectangular table laid out as a dense matrix of its own width is the
/// table itself.
pub proof fn lemma_padded_rectangular<T>(rows: Seq<Seq<T>>, d: nat, fill: T)
    requires
        is_rectangular(rows, d),
    ensures
        spec_padded(rows, d, fill) == rows,
{
    let p = spec_padded(rows, d, fill);
    assert forall|k: int| 0 <= k < rows.len() implies #[trigger] p[k] =~= rows[k] by {
        assert(rows[k].len() == d);
    }
    assert(p =~= rows);
}

/// The columns of a non-empty table of samples, as many as the first sample
/// has coordinates; every sample must have at least that many.
pub fn columns<T: Copy>(rows: &Vec<Vec<T>>) -> (r: Vec<Vec<T>>)
    requires
        rows.len() > 0,
        rows_reach(table_view(rows@), rows@[0]@.len()),
    ensures
        table_view(r@) == spec_columns(table_view(rows@), rows@[0]@.len()),
        r.len() == rows@[0]@.len(),
        forall|i: int| 0 <= i < r.len() ==> #[trigger] r@[i]@.len() == rows.len(),
        forall|i: int, k: int|
            0 <= i < r.len() && 0 <= k < rows.len() ==> #[trigger] r@[i]@[k] == rows@[k]@[i],
{
    let d = rows[0].len();
    let n = rows.len();
    let ghost t = table_view(rows@);
    let mut out: Vec<Vec<T>> = Vec::new();
    for i in 0..d
        invariant
            d == rows@[0]@.len(),
            n == rows.len(),
            t == table_view(rows@),
            rows_reach(t, d as nat),
            out.len() == i,
            forall|c: int| 0 <= c < i ==> #[trigger] out@[c]@ == spec_columns(t, d as nat)[c],
    {
        let mut column: Vec<T> = Vec::new();
        for k in 0..n
            invariant
                d == rows@[0]@.len(),
                n == rows.len(),
                i < d,
                t == table_view(rows@),
                rows_reach(t, d as nat),
                column.len() == k,
                forall|m: int| 0 <= m < k ==> #[trigger] column@[m] == t[m][i as int],
        {
            assert(t[k as int].len() >= d);
            column.push(rows[k][i]);
        }
        assert(column@ =~= spec_columns(t, d as nat)[i as int]);
        out.push(column);
    }
    assert(table_view(out@) =~= spec_columns(t, d as nat));
    assert forall|i: int| 0 <= i < d implies #[trigger] out@[i]@ == spec_columns(t, d as nat)[i] by {
        assert(table_view(out@)[i] == out@[i]@);
    }
    out
}

/// The table as a dense matrix as wide as its first row: entries missing
/// from a shorter row are `fill`; no row may be longer than the first.
pub fn padded_rows<T: Copy>(rows: &Vec<Vec<T>>, fill: T) -> (r: Vec<Vec<T>>)
    requires
        rows.len() > 0,
        forall|k: int| 0 <= k < rows.len() ==> #[trigger] rows@[k]@.len() <= rows@[0]@.len(),
    ensures
        table_view(r@) == spec_padded(table_view(rows@), rows@[0]@.len(), fill),
        is_rectangular(table_view(rows@), rows@[0]@.len()) ==> table_view(r@) == table_view(
            rows@,
        ),
        r.len() == rows.len(),
        forall|i: int| 0 <= i < r.len() ==> #[trigger] r@[i]@.len() == rows@[0]@.len(),
        forall|i: int, j: int|
            0 <= i < r.len() && 0 <= j < rows@[0]@.len() ==> #[trigger] r@[i]@[j] == if j
                < rows@[i]@.len() {
                rows@[i]@[j]
            } else {
                fill
            },
{
    let d = rows[0].len();
    let n = rows.len();
    let ghost t = table_view(rows@);
    let ghost target = spec_padded(t, d as nat, fill);
    let mut out: Vec<Vec<T>> = Vec::new();
    for i in 0..n
        invariant
            d == rows@[0]@.len(),
            n == rows.len(),
            t == table_view(rows@),
            target == spec_padded(t, d as nat, fill),
            out.len() == i,
            forall|c: int| 0 <= c < i ==> #[trigger] out@[c]@ == target[c],
    {
        let row = &rows[i];
        let mut dense: Vec<T> = Vec::new();
        for j in 0..d
            invariant
                d == rows@[0]@.len(),
                n == rows.len(),
                i < n,
                row@ == t[i as int],
                t == table_view(rows@),
                target == spec_padded(t, d as nat, fill),
                dense.len() == j,
                forall|m: int| 0 <= m < j ==> #[trigger] dense@[m] == target[i as int][m],
        {
            if j < row.len() {
                dense.push(row[j]);
            } else {
                dense.push(fill);
            }
        }
        assert(dense@ =~= target[i as int]);
        out.push(dense);
    }
    assert(table_view(out@) =~= target);
    assert forall|i: int| 0 <= i < n implies #[trigger] out@[i]@ == target[i] by {
        assert(table_view(out@)[i] == out@[i]@);
    }
    proof {
        if is_rectangular(t, d as nat) {
            lemma_padded_rectangular(t, d as nat, fill);
        }
    }
    out
}

} // verus!
