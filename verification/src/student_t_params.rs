//! Layout of the flat parameter vector of the multivariate Student-t
//! likelihood: `[location (d entries), scale matrix (d * d entries, row
//! major), degrees of freedom (1 entry)]`.
//!
//! The optimiser works on this flat vector; the cost function turns it back
//! into a location vector, a scale matrix and a degrees-of-freedom value, and
//! rejects a vector of the wrong length.
use vstd::arithmetic::div_mod::lemma_fundamental_div_mod;
use vstd::arithmetic::div_mod::lemma_fundamental_div_mod_converse;
use vstd::prelude::*;

verus! {

/// Length of the flat parameter vector in dimension `d`.
pub open spec fn spec_param_len(d: nat) -> nat {
    d + d * d + 1
}

/// `rows` is a `d` by `d` matrix.
pub open spec fn is_square<T>(rows: Seq<Seq<T>>, d: nat) -> bool {
    &&& rows.len() == d
    &&& forall|i: int| 0 <= i < d ==> #[trigger] rows[i].len() == d
}

/// The flat vector that holds location `mu`, scale matrix `sigma` and degrees
/// of freedom `nu` (the dimension is the length of `mu`).
pub open spec fn spec_pack<T>(mu: Seq<T>, sigma: Seq<Seq<T>>, nu: T) -> Seq<T> {
    let d = mu.len();
    Seq::new(
        spec_param_len(d),
        |k: int|
            if k < d {
                mu[k]
            } else if k < d + d * d {
                sigma[(k - d) / (d as int)][(k - d) % (d as int)]
            } else {
                nu
            },
    )
}

/// Location, scale matrix and degrees of freedom read from a flat vector of
/// dimension `d`: the first `d` entries, then row `i` of the scale matrix at
/// `d + i * d .. d + i * d + d`, then the last entry.
pub open spec fn spec_unpack<T>(params: Seq<T>, d: nat) -> (Seq<T>, Seq<Seq<T>>, T) {
    (
        params.subrange(0, d as int),
        Seq::new(d, |i: int| params.subrange(d + i * d, d + i * d + d)),
        params[params.len() - 1],
    )
}

/// Location vector, scale matrix (as rows) and degrees of freedom of a
/// multivariate Student-t distribution.
pub struct StudentTParams<T> {
    pub location: Vec<T>,
    pub scale: Vec<Vec<T>>,
    pub dof: T,
}

impl<T> View for StudentTParams<T> {
    type V = (Seq<T>, Seq<Seq<T>>, T);

    open spec fn view(&self) -> (Seq<T>, Seq<Seq<T>>, T) {
        (self.location@, self.scale@.map_values(|r: Vec<T>| r@), self.dof)
    }
}

/// Why a flat parameter vector was refused.
#[derive(Clone, Copy, Debug, PartialEq, Eq, Structural)]
pub enum ParamError {
    /// The vector does not have `d + d * d + 1` entries; `found` is its length.
    IncorrectLength { found: usize },
}

/// Entry `j` of row `i` of a `d` by `d` matrix sits at offset `i * d + j` of
/// its row-major flattening, and that offset gives back `i` and `j`.
pub proof fn lemma_row_major_offset(d: nat, i: int, j: int)
    requires
        0 <= i < d,
        0 <= j < d,
    ensures
        0 <= i * d + j < d * d,
        (i * d + j) / (d as int) == i,
        (i * d + j) % (d as int) == j,
{
    assert(0 <= i * d + j < d * d) by (nonlinear_arith)
        requires
            0 <= i < d,
            0 <= j < d,
    ;
    lemma_fundamental_div_mod_converse(i * d + j, d as int, i, j);
}

/// An offset below `d * d` lies in some row `q < d` at column `r < d`.
proof fn lemma_offset_in_square(d: nat, x: int)
    requires
        0 <= x < d * d,
    ensures
        d > 0,
        0 <= x / (d as int) < d,
        0 <= x % (d as int) < d,
        x == (x / (d as int)) * d + x % (d as int),
{
    assert(d > 0) by (nonlinear_arith)
        requires
            0 <= x < d * d,
    ;
    lemma_fundamental_div_mod(x, d as int);
    let q = x / (d as int);
    let r = x % (d as int);
    assert(0 <= r < d);
    assert(x == q * d + r) by (nonlinear_arith)
        requires
            x == (d as int) * q + r,
    ;
    assert(0 <= q < d) by (nonlinear_arith)
        requires
            x == q * d + r,
            0 <= r < d,
            0 <= x < d * d,
            d > 0,
    ;
}

/// Unpacking a packed parameter set gives the parameter set back.
pub proof fn lemma_unpack_pack<T>(mu: Seq<T>, sigma: Seq<Seq<T>>, nu: T)
    requires
        is_square(sigma, mu.len()),
    ensures
        spec_unpack(spec_pack(mu, sigma, nu), mu.len()) == (mu, sigma, nu),
{
    let d = mu.len();
    let p = spec_pack(mu, sigma, nu);
    let u = spec_unpack(p, d);
    assert(u.0 =~= mu);
    assert forall|i: int| 0 <= i < d implies #[trigger] u.1[i] =~= sigma[i] by {
        assert(d + i * d + d <= d + d * d) by (nonlinear_arith)
            requires
                0 <= i < d,
        ;
        assert(u.1[i].len() == d);
        assert forall|j: int| 0 <= j < d implies u.1[i][j] == sigma[i][j] by {
            lemma_row_major_offset(d, i, j);
            assert(u.1[i][j] == p[d + i * d + j]);
        }
    }
    assert(u.1 =~= sigma);
}

/// Packing the parameters read from a flat vector of the right length gives
/// the vector back.
pub proof fn lemma_pack_unpack<T>(params: Seq<T>, d: nat)
    requires
        params.len() == spec_param_len(d),
    ensures
        is_square(spec_unpack(params, d).1, d),
        spec_pack(spec_unpack(params, d).0, spec_unpack(params, d).1, spec_unpack(params, d).2)
            == params,
{
    let u = spec_unpack(params, d);
    assert forall|i: int| 0 <= i < d implies #[trigger] u.1[i].len() == d by {
        assert(d + i * d + d <= d + d * d) by (nonlinear_arith)
            requires
                0 <= i < d,
        ;
    }
    let p = spec_pack(u.0, u.1, u.2);
    assert forall|k: int| 0 <= k < params.len() implies p[k] == params[k] by {
        if k < d {
        } else if k < d + d * d {
            lemma_offset_in_square(d, k - d);
            let q = (k - d) / (d as int);
            let r = (k - d) % (d as int);
            assert(d + q * d + d <= d + d * d) by (nonlinear_arith)
                requires
                    0 <= q < d,
            ;
            assert(u.1[q][r] == params[d + q * d + r]);
        } else {
        }
    }
    assert(p =~= params);
}

/// Length `d + d * d + 1` of the flat parameter vector, or `None` where it
/// does not fit in a `usize`.
pub fn param_len(d: usize) -> (r: Option<usize>)
    ensures
        match r {
            Some(n) => n == spec_param_len(d as nat),
            None => spec_param_len(d as nat) > usize::MAX,
        },
{
    match d.checked_mul(d) {
        None => None,
        Some(square) => match square.checked_add(d) {
            None => None,
            Some(s) => s.checked_add(1),
        },
    }
}

/// Reads location, scale matrix and degrees of freedom from the flat vector
/// `params` of dimension `d`; refuses a vector whose length is not
/// `d + d * d + 1`.
pub fn unpack_params<T: Copy>(params: &Vec<T>, d: usize) -> (r: Result<
    StudentTParams<T>,
    ParamError,
>)
    ensures
        r is Ok <==> params.len() == spec_param_len(d as nat),
        r matches Ok(p) ==> p@ == spec_unpack(params@, d as nat),
        r matches Err(e) ==> e == (ParamError::IncorrectLength { found: params.len() }),
{
    let length_ok = match param_len(d) {
        Some(n) => params.len() == n,
        None => false,
    };
    if !length_ok {
        return Err(ParamError::IncorrectLength { found: params.len() });
    }
    let ghost dn = d as nat;
    let mut location: Vec<T> = Vec::new();
    for i in 0..d
        invariant
            params.len() == spec_param_len(dn),
            dn == d,
            location@ =~= params@.subrange(0, i as int),
    {
        location.push(params[i]);
    }
    let mut scale: Vec<Vec<T>> = Vec::new();
    let mut idx: usize = d;
    for i in 0..d
        invariant
            params.len() == spec_param_len(dn),
            dn == d,
            scale.len() == i,
            idx == d + i * d,
            forall|r: int|
                0 <= r < i ==> #[trigger] scale@[r]@ == params@.subrange(
                    d + r * d,
                    d + r * d + d,
                ),
    {
        assert(d + i * d + d <= d + d * d) by (nonlinear_arith)
            requires
                i < d,
        ;
        let ghost start = idx as int;
        let mut row: Vec<T> = Vec::new();
        for j in 0..d
            invariant
                params.len() == spec_param_len(dn),
                dn == d,
                start == d + i * d,
                start + d <= d + d * d,
                idx == start + j,
                row@ =~= params@.subrange(start, start + j),
        {
            row.push(params[idx]);
            idx = idx + 1;
        }
        assert(idx == d + (i + 1) * d) by (nonlinear_arith)
            requires
                idx == d + i * d + d,
        ;
        scale.push(row);
    }
    let dof = params[params.len() - 1];
    let p = StudentTParams { location, scale, dof };
    assert(p@.1 =~= spec_unpack(params@, dn).1);
    Ok(p)
}

/// The flat vector of a parameter set whose scale matrix is square of the
/// dimension of its location vector.
pub fn pack_params<T: Copy>(p: &StudentTParams<T>) -> (r: Vec<T>)
    requires
        is_square(p@.1, p.location.len() as nat),
        spec_param_len(p.location.len() as nat) <= usize::MAX,
    ensures
        r@ == spec_pack(p@.0, p@.1, p@.2),
{
    let d = p.location.len();
    let ghost dn = d as nat;
    let ghost target = spec_pack(p@.0, p@.1, p@.2);
    let mut out: Vec<T> = Vec::new();
    for i in 0..d
        invariant
            d == p.location.len(),
            dn == d,
            target == spec_pack(p@.0, p@.1, p@.2),
            out@ =~= target.subrange(0, i as int),
    {
        out.push(p.location[i]);
    }
    for i in 0..d
        invariant
            d == p.location.len(),
            dn == d,
            is_square(p@.1, dn),
            spec_param_len(dn) <= usize::MAX,
            target == spec_pack(p@.0, p@.1, p@.2),
            out.len() == d + i * d,
            out@ =~= target.subrange(0, d + i * d),
    {
        assert(d + i * d + d <= d + d * d) by (nonlinear_arith)
            requires
                i < d,
        ;
        assert(p@.1[i as int].len() == d);
        let row = &p.scale[i];
        for j in 0..d
            invariant
                d == p.location.len(),
                dn == d,
                i < d,
                row@ == p@.1[i as int],
                row.len() == d,
                d + i * d + d <= d + d * d,
                target == spec_pack(p@.0, p@.1, p@.2),
                out.len() == d + i * d + j,
                out@ =~= target.subrange(0, d + i * d + j),
        {
            proof {
                lemma_row_major_offset(dn, i as int, j as int);
            }
            assert(target[d + i * d + j] == row@[j as int]);
            out.push(row[j]);
        }
        assert(d + i * d + d == d + (i + 1) * d) by (nonlinear_arith);
    }
    out.push(p.dof);
    assert(out@ =~= target);
    out
}

} // verus!
