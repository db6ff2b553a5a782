//! The starting simplex of a Nelder-Mead search: the starting point and, for
//! each coordinate, one vertex that moves only that coordinate.
use crate::table::table_view;
use vstd::prelude::*;

verus! {

/// Vertex `0` is `base`; vertex `v + 1` is `base` with coordinate `v`
/// replaced by `moved[v]`.
pub open spec fn spec_simplex<T>(base: Seq<T>, moved: Seq<T>) -> Seq<Seq<T>> {
    Seq::new(
        base.len() + 1,
        |v: int|
            if v == 0 {
                base
            } else {
                base.update(v - 1, moved[v - 1])
            },
    )
}

/// The first vertex is the starting point itself, and vertex `v + 1` is the
/// starting point with coordinate `v`, and only that one, set to `moved[v]`.
pub proof fn lemma_simplex_vertices<T>(base: Seq<T>, moved: Seq<T>)
    requires
        moved.len() == base.len(),
    ensures
        spec_simplex(base, moved).len() == base.len() + 1,
        spec_simplex(base, moved)[0] == base,
        forall|v: int, c: int|
            0 <= v < base.len() && 0 <= c < base.len() ==> (#[trigger] spec_simplex(base, moved)[v
                + 1][c] == if c == v {
                moved[v]
            } else {
                base[c]
            }),
        forall|v: int| 0 <= v < base.len() ==> #[trigger] spec_simplex(base, moved)[v + 1].len() == base.len(),
{
}

/// A vertex other than the first differs from the first at most in its own
/// coordinate.
pub proof fn lemma_simplex_vertex_moves_one_coordinate<T>(
    base: Seq<T>,
    moved: Seq<T>,
    v: int,
    c: int,
)
    requires
        moved.len() == base.len(),
        0 <= v < base.len(),
        0 <= c < base.len(),
        c != v,
    ensures
        spec_simplex(base, moved)[v + 1].len() == base.len(),
        spec_simplex(base, moved)[v + 1][c] == spec_simplex(base, moved)[0][c],
        spec_simplex(base, moved)[v + 1][v] == moved[v],
{
}

/// The `base.len() + 1` vertices of the starting simplex around `base`, where
/// `moved[i]` is the value that coordinate `i` takes in its own vertex.
pub fn initial_simplex<T: Copy>(base: &Vec<T>, moved: &Vec<T>) -> (r: Vec<Vec<T>>)
    requires
        moved.len() == base.len(),
        base.len() < usize::MAX,
    ensures
        table_view(r@) == spec_simplex(base@, moved@),
        r.len() == base.len() + 1,
        r@[0]@ == base@,
        forall|v: int| 0 <= v < base.len() ==> #[trigger] r@[v + 1]@.len() == base.len(),
        forall|v: int, c: int|
            0 <= v < base.len() && 0 <= c < base.len() ==> #[trigger] r@[v + 1]@[c] == if c == v {
                moved@[v]
            } else {
                base@[c]
            },
{
    let n = base.len();
    let ghost target = spec_simplex(base@, moved@);
    let mut first: Vec<T> = Vec::new();
    for k in 0..n
        invariant
            n == base.len(),
            first@ =~= base@.subrange(0, k as int),
    {
        first.push(base[k]);
    }
    let mut out: Vec<Vec<T>> = Vec::new();
    out.push(first);
    for v in 0..n
        invariant
            n == base.len(),
            moved.len() == n,
            target == spec_simplex(base@, moved@),
            out.len() == v + 1,
            forall|w: int| 0 <= w <= v ==> #[trigger] out@[w]@ == target[w],
    {
        let mut vertex: Vec<T> = Vec::new();
        for k in 0..n
            invariant
                n == base.len(),
                moved.len() == n,
                v < n,
                target == spec_simplex(base@, moved@),
                vertex.len() == k,
                forall|m: int| 0 <= m < k ==> #[trigger] vertex@[m] == target[v + 1][m],
        {
            if k == v {
                vertex.push(moved[v]);
            } else {
                vertex.push(base[k]);
            }
        }
        assert(vertex@ =~= target[v + 1]);
        out.push(vertex);
    }
    assert(table_view(out@) =~= target);
    assert forall|v: int| 0 <= v <= n implies #[trigger] out@[v]@ == target[v] by {
        assert(table_view(out@)[v] == out@[v]@);
    }
    out
}

} // verus!
