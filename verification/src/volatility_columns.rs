//! Names of the rolling-volatility columns, one per window length, and the
//! order in which their plots are stacked: for each window, the centred
//! column, then the trailing one.
use crate::text::{decimal, prefixed_number};
use vstd::prelude::*;

verus! {

/// Prefix of the name of a volatility column.
pub open spec fn volatility_prefix(centered: bool) -> Seq<char> {
    if centered {
        "volatility_centered_k"@
    } else {
        "volatility_not_centered_k"@
    }
}

/// Names of the volatility columns for the given window lengths, centred or
/// trailing: the prefix followed by the window length in decimal.
pub fn volatility_column_names(windows: &Vec<usize>, centered: bool) -> (names: Vec<String>)
    ensures
        names.len() == windows.len(),
        forall|i: int|
            0 <= i < windows.len() ==> #[trigger] names@[i]@ == volatility_prefix(centered)
                + decimal(windows@[i] as nat),
{
    let prefix = if centered {
        "volatility_centered_k"
    } else {
        "volatility_not_centered_k"
    };
    let mut names: Vec<String> = Vec::new();
    for i in 0..windows.len()
        invariant
            prefix@ == volatility_prefix(centered),
            names.len() == i,
            forall|k: int|
                0 <= k < i ==> #[trigger] names@[k]@ == volatility_prefix(centered) + decimal(
                    windows@[k] as nat,
                ),
    {
        names.push(prefixed_number(prefix, windows[i]));
    }
    names
}

/// `first[0], second[0], first[1], second[1], ...` for two lists of the same
/// length.
pub fn interleave(first: &Vec<String>, second: &Vec<String>) -> (r: Vec<String>)
    requires
        first.len() == second.len(),
        first.len() * 2 <= usize::MAX,
    ensures
        r.len() == 2 * first.len(),
        forall|i: int|
            0 <= i < first.len() ==> r@[2 * i] == #[trigger] first@[i] && r@[2 * i + 1]
                == second@[i],
{
    let n = first.len();
    let mut r: Vec<String> = Vec::new();
    let mut i: usize = 0;
    while i < n
        invariant
            n == first.len(),
            first.len() == second.len(),
            n * 2 <= usize::MAX,
            0 <= i <= n,
            r.len() == 2 * i,
            forall|k: int|
                0 <= k < i ==> r@[2 * k] == #[trigger] first@[k] && r@[2 * k + 1] == second@[k],
        decreases n - i,
    {
        let ghost before = r@;
        r.push(first[i].clone());
        r.push(second[i].clone());
        proof {
            assert(r@ == before.push(first@[i as int]).push(second@[i as int]));
            assert forall|k: int| 0 <= k < i + 1 implies r@[2 * k] == #[trigger] first@[k] && r@[2
                * k + 1] == second@[k] by {
                if k < i {
                    assert(r@[2 * k] == before[2 * k]);
                    assert(r@[2 * k + 1] == before[2 * k + 1]);
                } else {
                    assert(2 * k == before.len());
                    assert(r@[2 * k] == first@[i as int]);
                    assert(r@[2 * k + 1] == second@[i as int]);
                }
            }
        }
        i = i + 1;
    }
    r
}

} // verus!
