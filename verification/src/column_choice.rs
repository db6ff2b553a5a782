//! Choosing series at random among the columns of a data set: every column
//! but the excluded one (the date column) is a candidate, and the chosen
//! columns are distinct candidates in random order.
use rand::seq::IndexedRandom;
use vstd::prelude::*;

verus! {

/// `picked[k]` is `pool[idx[k]]`, and the positions `idx` are distinct.
pub open spec fn picks_at<A>(picked: Seq<A>, pool: Seq<A>, idx: Seq<int>) -> bool {
    &&& idx.len() == picked.len()
    &&& forall|k: int|
        0 <= k < idx.len() ==> 0 <= #[trigger] idx[k] < pool.len() && picked[k] == pool[idx[k]]
    &&& forall|a: int, b: int|
        0 <= a < idx.len() && 0 <= b < idx.len() && a != b ==> #[trigger] idx[a] != #[trigger] idx[b]
}

/// `picked` is made of entries of `pool` taken at distinct positions.
pub open spec fn is_draw_from<A>(picked: Seq<A>, pool: Seq<A>) -> bool {
    exists|idx: Seq<int>| #[trigger] picks_at(picked, pool, idx)
}

/// No entry occurs twice.
pub open spec fn no_repeats<A>(s: Seq<A>) -> bool {
    forall|a: int, b: int|
        0 <= a < s.len() && 0 <= b < s.len() && a != b ==> #[trigger] s[a] != #[trigger] s[b]
}

/// A draw from a pool without repeated entries has no repeated entries.
pub proof fn lemma_draw_has_no_repeats<A>(picked: Seq<A>, pool: Seq<A>)
    requires
        is_draw_from(picked, pool),
        no_repeats(pool),
    ensures
        no_repeats(picked),
{
    let idx = choose|idx: Seq<int>| #[trigger] picks_at(picked, pool, idx);
    assert forall|a: int, b: int|
        0 <= a < picked.len() && 0 <= b < picked.len() && a != b implies #[trigger] picked[a]
        != #[trigger] picked[b] by {
        assert(idx[a] != idx[b]);
        assert(0 <= idx[a] < pool.len());
        assert(0 <= idx[b] < pool.len());
    }
}

/// The smaller of two counts.
pub open spec fn min_count(a: int, b: int) -> int {
    if a < b {
        a
    } else {
        b
    }
}

/// The candidate columns: all names but `excluded`, in their order.
pub open spec fn spec_candidates(names: Seq<String>, excluded: Seq<char>) -> Seq<String> {
    names.filter(|s: String| s@ != excluded)
}

/// Calls `rand::seq::IndexedRandom::sample` on `pool` with the thread-local
/// generator and clones what it hands out. Its source takes
/// `min(amount, pool.len())` distinct positions of `pool` from
/// `rand::seq::index::sample` and yields the entries there; which positions,
/// and their order, depend on the generator and are left open.
#[verifier::external_body]
fn sample_distinct(pool: &Vec<String>, amount: usize) -> (picked: Vec<String>)
    ensures
        picked.len() == min_count(amount as int, pool.len() as int),
        is_draw_from(picked@, pool@),
{
    pool.sample(&mut rand::rng(), amount).cloned().collect()
}

/// Up to `amount` distinct columns drawn at random among `names` without
/// `excluded`: as many as asked where there are enough candidates, else all
/// of them, in random order.
pub fn choose_columns(names: &Vec<String>, excluded: &String, amount: usize) -> (picked: Vec<
    String,
>)
    ensures
        picked.len() == min_count(amount as int, spec_candidates(names@, excluded@).len() as int),
        is_draw_from(picked@, spec_candidates(names@, excluded@)),
        forall|k: int| 0 <= k < picked.len() ==> #[trigger] picked@[k]@ != excluded@,
        forall|k: int| 0 <= k < picked.len() ==> names@.contains(#[trigger] picked@[k]),
        no_repeats(names@) ==> no_repeats(picked@),
{
    let mut pool: Vec<String> = Vec::new();
    for i in 0..names.len()
        invariant
            pool@ == spec_candidates(names@.take(i as int), excluded@),
            forall|m: int| 0 <= m < pool.len() ==> names@.take(i as int).contains(#[trigger] pool@[m]),
            no_repeats(names@) ==> no_repeats(pool@),
    {
        proof {
            reveal(Seq::filter);
            assert(names@.take(i + 1).drop_last() =~= names@.take(i as int));
            assert(names@.take(i + 1).last() == names@[i as int]);
        }
        let keep = !(names[i] == *excluded);
        let ghost before = pool@;
        if keep {
            let name = names[i].clone();
            pool.push(name);
        }
        proof {
            let t = names@.take(i + 1);
            assert forall|m: int| 0 <= m < pool.len() implies t.contains(#[trigger] pool@[m]) by {
                if m == before.len() {
                    assert(t[i as int] == pool@[m]);
                } else {
                    assert(pool@[m] == before[m]);
                    assert(names@.take(i as int).contains(before[m]));
                    let q = choose|q: int| 0 <= q < i && names@.take(i as int)[q] == before[m];
                    assert(t[q] == pool@[m]);
                }
            }
            if no_repeats(names@) {
                assert forall|a: int, b: int|
                    0 <= a < pool.len() && 0 <= b < pool.len() && a != b implies #[trigger] pool@[a]
                    != #[trigger] pool@[b] by {
                    if a < before.len() && b < before.len() {
                        assert(pool@[a] == before[a]);
                        assert(pool@[b] == before[b]);
                    } else if a < before.len() {
                        assert(names@.take(i as int).contains(before[a]));
                        let q = choose|q: int| 0 <= q < i && names@.take(i as int)[q] == before[a];
                        assert(names@[q] != names@[i as int]);
                        assert(pool@[b] == names@[i as int]);
                    } else {
                        assert(names@.take(i as int).contains(before[b]));
                        let q = choose|q: int| 0 <= q < i && names@.take(i as int)[q] == before[b];
                        assert(names@[q] != names@[i as int]);
                        assert(pool@[a] == names@[i as int]);
                    }
                }
            }
        }
    }
    assert(names@.take(names.len() as int) =~= names@);
    let picked = sample_distinct(&pool, amount);
    proof {
        let pred = |s: String| s@ != excluded@;
        let idx = choose|idx: Seq<int>| #[trigger] picks_at(picked@, pool@, idx);
        assert forall|k: int| 0 <= k < picked.len() implies #[trigger] picked@[k]@ != excluded@ by {
            assert(0 <= idx[k] < pool.len());
            assert(picked@[k] == pool@[idx[k]]);
            names@.lemma_filter_pred(pred, idx[k]);
        }
        assert forall|k: int| 0 <= k < picked.len() implies names@.contains(
            #[trigger] picked@[k],
        ) by {
            assert(0 <= idx[k] < pool.len());
            assert(picked@[k] == pool@[idx[k]]);
        }
        if no_repeats(names@) {
            lemma_draw_has_no_repeats(picked@, pool@);
        }
    }
    picked
}

} // verus!
