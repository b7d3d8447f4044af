//! Dense vectors and matrices of exact rational scalars.
//!
//! A vector is a `Vec<Rat>`, a matrix a row-major `Vec<Vec<Rat>>`. Every
//! executable operation is specified entrywise against its mathematical
//! counterpart over `RatV` sequences; the `*_fits` predicates say that all
//! intermediate `i128` products of an operation stay in range, and are the
//! only preconditions beyond well-formedness and matching dimensions.

use vstd::prelude::*;

use crate::rational::{
    add_fits, mul_fits, rat_add, rat_add_v, rat_mul, rat_mul_v, rat_one, rat_one_v, rat_sub,
    rat_sub_v, rat_zero, rat_zero_v, sub_fits, Rat, RatV,
};

verus! {

/// Mathematical model of a matrix: a sequence of rows.
pub type MatV = Seq<Seq<RatV>>;

/// View of an executable vector.
pub open spec fn vv(v: Seq<Rat>) -> Seq<RatV> {
    v.map_values(|x: Rat| x@)
}

/// View of an executable matrix.
pub open spec fn mv(m: Seq<Vec<Rat>>) -> MatV {
    m.map_values(|row: Vec<Rat>| vv(row@))
}

/// Every entry of the vector is well formed.
pub open spec fn vec_wf(v: Seq<RatV>) -> bool {
    forall|i: int| 0 <= i < v.len() ==> (#[trigger] v[i]).wf()
}

/// The matrix has `r` rows of `c` well-formed entries each.
pub open spec fn mat_wf(m: MatV, r: int, c: int) -> bool {
    &&& m.len() == r
    &&& forall|i: int| 0 <= i < r ==> (#[trigger] m[i]).len() == c && vec_wf(m[i])
}

pub open spec fn vec_add_v(x: Seq<RatV>, y: Seq<RatV>) -> Seq<RatV> {
    Seq::new(x.len(), |i: int| rat_add_v(x[i], y[i]))
}

pub open spec fn vec_sub_v(x: Seq<RatV>, y: Seq<RatV>) -> Seq<RatV> {
    Seq::new(x.len(), |i: int| rat_sub_v(x[i], y[i]))
}

pub open spec fn vec_add_fits(x: Seq<RatV>, y: Seq<RatV>) -> bool {
    forall|i: int| 0 <= i < x.len() ==> add_fits(#[trigger] x[i], y[i])
}

pub open spec fn vec_sub_fits(x: Seq<RatV>, y: Seq<RatV>) -> bool {
    forall|i: int| 0 <= i < x.len() ==> sub_fits(#[trigger] x[i], y[i])
}

/// Dot product of the first `k` entries.
pub open spec fn dot_prefix_v(x: Seq<RatV>, y: Seq<RatV>, k: int) -> RatV
    decreases k,
{
    if k <= 0 {
        rat_zero_v()
    } else {
        rat_add_v(dot_prefix_v(x, y, k - 1), rat_mul_v(x[k - 1], y[k - 1]))
    }
}

pub open spec fn dot_v(x: Seq<RatV>, y: Seq<RatV>) -> RatV {
    dot_prefix_v(x, y, x.len() as int)
}

pub open spec fn dot_prefix_fits(x: Seq<RatV>, y: Seq<RatV>, k: int) -> bool
    decreases k,
{
    if k <= 0 {
        true
    } else {
        &&& dot_prefix_fits(x, y, k - 1)
        &&& mul_fits(x[k - 1], y[k - 1])
        &&& add_fits(dot_prefix_v(x, y, k - 1), rat_mul_v(x[k - 1], y[k - 1]))
    }
}

pub open spec fn dot_fits(x: Seq<RatV>, y: Seq<RatV>) -> bool {
    dot_prefix_fits(x, y, x.len() as int)
}

/// A fits bound on a long prefix carries down to every shorter one.
pub proof fn lemma_dot_prefix_fits_mono(x: Seq<RatV>, y: Seq<RatV>, j: int, k: int)
    requires
        j <= k,
        dot_prefix_fits(x, y, k),
    ensures
        dot_prefix_fits(x, y, j),
    decreases k - j,
{
    if j < k {
        lemma_dot_prefix_fits_mono(x, y, j, k - 1);
    }
}

#[verifier::loop_isolation(false)]
pub fn dot(x: &Vec<Rat>, y: &Vec<Rat>) -> (r: Rat)
    requires
        x@.len() == y@.len(),
        vec_wf(vv(x@)),
        vec_wf(vv(y@)),
        dot_fits(vv(x@), vv(y@)),
    ensures
        r@ == dot_v(vv(x@), vv(y@)),
        r@.wf(),
{
    let mut acc = rat_zero();
    let mut k: usize = 0;
    while k < x.len()
        invariant
            0 <= k <= x@.len(),
            acc@ == dot_prefix_v(vv(x@), vv(y@), k as int),
            acc@.wf(),
        decreases x@.len() - k,
    {
        proof {
            lemma_dot_prefix_fits_mono(vv(x@), vv(y@), k as int + 1, x@.len() as int);
        }
        let p = rat_mul(x[k], y[k]);
        acc = rat_add(acc, p);
        k = k + 1;
    }
    acc
}

#[verifier::loop_isolation(false)]
pub fn vec_add(x: &Vec<Rat>, y: &Vec<Rat>) -> (r: Vec<Rat>)
    requires
        x@.len() == y@.len(),
        vec_wf(vv(x@)),
        vec_wf(vv(y@)),
        vec_add_fits(vv(x@), vv(y@)),
    ensures
        vv(r@) == vec_add_v(vv(x@), vv(y@)),
        vec_wf(vv(r@)),
        r@.len() == x@.len(),
{
    let mut out: Vec<Rat> = Vec::new();
    let mut k: usize = 0;
    while k < x.len()
        invariant
            0 <= k <= x@.len(),
            out@.len() == k,
            forall|i: int| 0 <= i < k ==> (#[trigger] out@[i])@ == vec_add_v(vv(x@), vv(y@))[i]
                && out@[i]@.wf(),
        decreases x@.len() - k,
    {
        proof {
            assert(vv(x@)[k as int] == x@[k as int]@);
            assert(vv(y@)[k as int] == y@[k as int]@);
        }
        out.push(rat_add(x[k], y[k]));
        k = k + 1;
    }
    proof {
        assert forall|i: int| 0 <= i < x@.len() implies vv(out@)[i] == vec_add_v(
            vv(x@),
            vv(y@),
        )[i] && (#[trigger] vv(out@)[i]).wf() by {
            assert(vv(out@)[i] == out@[i]@);
        }
        assert(vv(out@) =~= vec_add_v(vv(x@), vv(y@)));
    }
    out
}

#[verifier::loop_isolation(false)]
pub fn vec_sub(x: &Vec<Rat>, y: &Vec<Rat>) -> (r: Vec<Rat>)
    requires
        x@.len() == y@.len(),
        vec_wf(vv(x@)),
        vec_wf(vv(y@)),
        vec_sub_fits(vv(x@), vv(y@)),
    ensures
        vv(r@) == vec_sub_v(vv(x@), vv(y@)),
        vec_wf(vv(r@)),
        r@.len() == x@.len(),
{
    let mut out: Vec<Rat> = Vec::new();
    let mut k: usize = 0;
    while k < x.len()
        invariant
            0 <= k <= x@.len(),
            out@.len() == k,
            forall|i: int| 0 <= i < k ==> (#[trigger] out@[i])@ == vec_sub_v(vv(x@), vv(y@))[i]
                && out@[i]@.wf(),
        decreases x@.len() - k,
    {
        proof {
            assert(vv(x@)[k as int] == x@[k as int]@);
            assert(vv(y@)[k as int] == y@[k as int]@);
        }
        out.push(rat_sub(x[k], y[k]));
        k = k + 1;
    }
    proof {
        assert forall|i: int| 0 <= i < x@.len() implies vv(out@)[i] == vec_sub_v(
            vv(x@),
            vv(y@),
        )[i] && (#[trigger] vv(out@)[i]).wf() by {
            assert(vv(out@)[i] == out@[i]@);
        }
        assert(vv(out@) =~= vec_sub_v(vv(x@), vv(y@)));
    }
    out
}


/// Column `j` of the matrix.
pub open spec fn col_v(m: MatV, j: int) -> Seq<RatV> {
    Seq::new(m.len(), |i: int| m[i][j])
}

pub proof fn lemma_col_wf(m: MatV, r: int, c: int, j: int)
    requires
        mat_wf(m, r, c),
        0 <= j < c,
    ensures
        vec_wf(col_v(m, j)),
        col_v(m, j).len() == r,
{
    assert forall|i: int| 0 <= i < col_v(m, j).len() implies (#[trigger] col_v(m, j)[i]).wf() by {
        assert(col_v(m, j)[i] == m[i][j]);
    }
}

pub open spec fn vec_scale_v(x: Seq<RatV>, s: RatV) -> Seq<RatV> {
    Seq::new(x.len(), |i: int| rat_mul_v(x[i], s))
}

pub open spec fn vec_scale_fits(x: Seq<RatV>, s: RatV) -> bool {
    forall|i: int| 0 <= i < x.len() ==> mul_fits(#[trigger] x[i], s)
}

pub open spec fn mat_add_v(a: MatV, b: MatV) -> MatV {
    Seq::new(a.len(), |i: int| vec_add_v(a[i], b[i]))
}

pub open spec fn mat_sub_v(a: MatV, b: MatV) -> MatV {
    Seq::new(a.len(), |i: int| vec_sub_v(a[i], b[i]))
}

pub open spec fn mat_add_fits(a: MatV, b: MatV) -> bool {
    forall|i: int| 0 <= i < a.len() ==> #[trigger] vec_add_fits(a[i], b[i])
}

pub open spec fn mat_sub_fits(a: MatV, b: MatV) -> bool {
    forall|i: int| 0 <= i < a.len() ==> #[trigger] vec_sub_fits(a[i], b[i])
}

/// Scalar multiple of a matrix, entrywise.
pub open spec fn scalar_mul_v(m: MatV, s: RatV) -> MatV {
    Seq::new(m.len(), |i: int| vec_scale_v(m[i], s))
}

pub open spec fn scalar_mul_fits(m: MatV, s: RatV) -> bool {
    forall|i: int| 0 <= i < m.len() ==> #[trigger] vec_scale_fits(m[i], s)
}

/// Transpose of an `r` by `c` matrix.
pub open spec fn transpose_v(m: MatV, c: int) -> MatV {
    Seq::new(c as nat, |j: int| col_v(m, j))
}

/// Matrix-vector product.
pub open spec fn mat_vec_v(a: MatV, x: Seq<RatV>) -> Seq<RatV> {
    Seq::new(a.len(), |i: int| dot_v(a[i], x))
}

pub open spec fn mat_vec_fits(a: MatV, x: Seq<RatV>) -> bool {
    forall|i: int| 0 <= i < a.len() ==> #[trigger] dot_fits(a[i], x)
}

/// Matrix product of `a` with a matrix `b` of `p` columns.
pub open spec fn mat_mul_v(a: MatV, b: MatV, p: int) -> MatV {
    Seq::new(a.len(), |i: int| Seq::new(p as nat, |j: int| dot_v(a[i], col_v(b, j))))
}

pub open spec fn mat_mul_fits(a: MatV, b: MatV, p: int) -> bool {
    forall|i: int, j: int|
        0 <= i < a.len() && 0 <= j < p ==> #[trigger] dot_fits(a[i], col_v(b, j))
}

pub open spec fn zero_vec_v(n: nat) -> Seq<RatV> {
    Seq::new(n, |i: int| rat_zero_v())
}

pub open spec fn zero_mat_v(r: nat, c: nat) -> MatV {
    Seq::new(r, |i: int| zero_vec_v(c))
}

/// The `n` by `n` identity matrix.
pub open spec fn identity_v(n: nat) -> MatV {
    Seq::new(
        n,
        |i: int| Seq::new(n, |j: int| if i == j { rat_one_v() } else { rat_zero_v() }),
    )
}

#[verifier::loop_isolation(false)]
pub fn col_of(b: &Vec<Vec<Rat>>, j: usize) -> (r: Vec<Rat>)
    requires
        forall|i: int| 0 <= i < b@.len() ==> j < (#[trigger] b@[i])@.len(),
    ensures
        vv(r@) == col_v(mv(b@), j as int),
        r@.len() == b@.len(),
{
    let mut out: Vec<Rat> = Vec::new();
    let mut k: usize = 0;
    while k < b.len()
        invariant
            0 <= k <= b@.len(),
            out@.len() == k,
            forall|i: int| 0 <= i < k ==> (#[trigger] out@[i])@ == b@[i]@[j as int]@,
        decreases b@.len() - k,
    {
        out.push(b[k][j]);
        k = k + 1;
    }
    proof {
        assert forall|i: int| 0 <= i < b@.len() implies vv(out@)[i] == col_v(mv(b@), j as int)[i] by {
            assert(vv(out@)[i] == out@[i]@);
            assert(col_v(mv(b@), j as int)[i] == mv(b@)[i][j as int]);
            assert(mv(b@)[i] == vv(b@[i]@));
        }
        assert(vv(out@) =~= col_v(mv(b@), j as int));
    }
    out
}

#[verifier::loop_isolation(false)]
pub fn vec_scale(x: &Vec<Rat>, s: Rat) -> (r: Vec<Rat>)
    requires
        vec_wf(vv(x@)),
        s@.wf(),
        vec_scale_fits(vv(x@), s@),
    ensures
        vv(r@) == vec_scale_v(vv(x@), s@),
        vec_wf(vv(r@)),
        r@.len() == x@.len(),
{
    let mut out: Vec<Rat> = Vec::new();
    let mut k: usize = 0;
    while k < x.len()
        invariant
            0 <= k <= x@.len(),
            out@.len() == k,
            forall|i: int| 0 <= i < k ==> (#[trigger] out@[i])@ == vec_scale_v(vv(x@), s@)[i]
                && out@[i]@.wf(),
        decreases x@.len() - k,
    {
        proof {
            assert(vv(x@)[k as int] == x@[k as int]@);
        }
        out.push(rat_mul(x[k], s));
        k = k + 1;
    }
    proof {
        assert forall|i: int| 0 <= i < x@.len() implies vv(out@)[i] == vec_scale_v(
            vv(x@),
            s@,
        )[i] && (#[trigger] vv(out@)[i]).wf() by {
            assert(vv(out@)[i] == out@[i]@);
        }
        assert(vv(out@) =~= vec_scale_v(vv(x@), s@));
    }
    out
}

#[verifier::loop_isolation(false)]
pub fn mat_add(a: &Vec<Vec<Rat>>, b: &Vec<Vec<Rat>>, r: usize, c: usize) -> (o: Vec<Vec<Rat>>)
    requires
        mat_wf(mv(a@), r as int, c as int),
        mat_wf(mv(b@), r as int, c as int),
        mat_add_fits(mv(a@), mv(b@)),
    ensures
        mv(o@) == mat_add_v(mv(a@), mv(b@)),
        mat_wf(mv(o@), r as int, c as int),
{
    let mut out: Vec<Vec<Rat>> = Vec::new();
    let mut k: usize = 0;
    while k < r
        invariant
            0 <= k <= r,
            a@.len() == r,
            out@.len() == k,
            forall|i: int| 0 <= i < k ==> vv((#[trigger] out@[i])@) == mat_add_v(mv(a@), mv(b@))[i]
                && vec_wf(vv(out@[i]@)) && out@[i]@.len() == c,
        decreases r - k,
    {
        proof {
            assert(mv(a@)[k as int] == vv(a@[k as int]@));
            assert(mv(b@)[k as int] == vv(b@[k as int]@));
        }
        let row = vec_add(&a[k], &b[k]);
        proof {
            assert(mat_add_v(mv(a@), mv(b@))[k as int] == vec_add_v(
                mv(a@)[k as int],
                mv(b@)[k as int],
            ));
        }
        out.push(row);
        k = k + 1;
    }
    proof {
        assert forall|i: int| 0 <= i < r implies mv(out@)[i] == mat_add_v(mv(a@), mv(b@))[i] by {
            assert(mv(out@)[i] == vv(out@[i]@));
        }
        assert(mv(out@) =~= mat_add_v(mv(a@), mv(b@)));
        assert forall|i: int| 0 <= i < r implies (#[trigger] mv(out@)[i]).len() == c && vec_wf(
            mv(out@)[i],
        ) by {
            assert(mv(out@)[i] == vv(out@[i]@));
        }
    }
    out
}

#[verifier::loop_isolation(false)]
pub fn mat_sub(a: &Vec<Vec<Rat>>, b: &Vec<Vec<Rat>>, r: usize, c: usize) -> (o: Vec<Vec<Rat>>)
    requires
        mat_wf(mv(a@), r as int, c as int),
        mat_wf(mv(b@), r as int, c as int),
        mat_sub_fits(mv(a@), mv(b@)),
    ensures
        mv(o@) == mat_sub_v(mv(a@), mv(b@)),
        mat_wf(mv(o@), r as int, c as int),
{
    let mut out: Vec<Vec<Rat>> = Vec::new();
    let mut k: usize = 0;
    while k < r
        invariant
            0 <= k <= r,
            a@.len() == r,
            out@.len() == k,
            forall|i: int| 0 <= i < k ==> vv((#[trigger] out@[i])@) == mat_sub_v(mv(a@), mv(b@))[i]
                && vec_wf(vv(out@[i]@)) && out@[i]@.len() == c,
        decreases r - k,
    {
        proof {
            assert(mv(a@)[k as int] == vv(a@[k as int]@));
            assert(mv(b@)[k as int] == vv(b@[k as int]@));
        }
        let row = vec_sub(&a[k], &b[k]);
        proof {
            assert(mat_sub_v(mv(a@), mv(b@))[k as int] == vec_sub_v(
                mv(a@)[k as int],
                mv(b@)[k as int],
            ));
        }
        out.push(row);
        k = k + 1;
    }
    proof {
        assert forall|i: int| 0 <= i < r implies mv(out@)[i] == mat_sub_v(mv(a@), mv(b@))[i] by {
            assert(mv(out@)[i] == vv(out@[i]@));
        }
        assert(mv(out@) =~= mat_sub_v(mv(a@), mv(b@)));
        assert forall|i: int| 0 <= i < r implies (#[trigger] mv(out@)[i]).len() == c && vec_wf(
            mv(out@)[i],
        ) by {
            assert(mv(out@)[i] == vv(out@[i]@));
        }
    }
    out
}

#[verifier::loop_isolation(false)]
pub fn scalar_mul(m: &Vec<Vec<Rat>>, s: Rat, r: usize, c: usize) -> (o: Vec<Vec<Rat>>)
    requires
        mat_wf(mv(m@), r as int, c as int),
        s@.wf(),
        scalar_mul_fits(mv(m@), s@),
    ensures
        mv(o@) == scalar_mul_v(mv(m@), s@),
        mat_wf(mv(o@), r as int, c as int),
{
    let mut out: Vec<Vec<Rat>> = Vec::new();
    let mut k: usize = 0;
    while k < r
        invariant
            0 <= k <= r,
            m@.len() == r,
            out@.len() == k,
            forall|i: int| 0 <= i < k ==> vv((#[trigger] out@[i])@) == scalar_mul_v(mv(m@), s@)[i]
                && vec_wf(vv(out@[i]@)) && out@[i]@.len() == c,
        decreases r - k,
    {
        proof {
            assert(mv(m@)[k as int] == vv(m@[k as int]@));
        }
        let row = vec_scale(&m[k], s);
        proof {
            assert(scalar_mul_v(mv(m@), s@)[k as int] == vec_scale_v(mv(m@)[k as int], s@));
        }
        out.push(row);
        k = k + 1;
    }
    proof {
        assert forall|i: int| 0 <= i < r implies mv(out@)[i] == scalar_mul_v(mv(m@), s@)[i] by {
            assert(mv(out@)[i] == vv(out@[i]@));
        }
        assert(mv(out@) =~= scalar_mul_v(mv(m@), s@));
        assert forall|i: int| 0 <= i < r implies (#[trigger] mv(out@)[i]).len() == c && vec_wf(
            mv(out@)[i],
        ) by {
            assert(mv(out@)[i] == vv(out@[i]@));
        }
    }
    out
}

#[verifier::loop_isolation(false)]
pub fn transpose(m: &Vec<Vec<Rat>>, r: usize, c: usize) -> (o: Vec<Vec<Rat>>)
    requires
        mat_wf(mv(m@), r as int, c as int),
    ensures
        mv(o@) == transpose_v(mv(m@), c as int),
        mat_wf(mv(o@), c as int, r as int),
{
    let mut out: Vec<Vec<Rat>> = Vec::new();
    let mut j: usize = 0;
    while j < c
        invariant
            0 <= j <= c,
            m@.len() == r,
            out@.len() == j,
            forall|i: int| 0 <= i < j ==> vv((#[trigger] out@[i])@) == transpose_v(
                mv(m@),
                c as int,
            )[i] && out@[i]@.len() == r,
        decreases c - j,
    {
        proof {
            assert forall|i: int| 0 <= i < m@.len() implies (j as int) < (#[trigger] m@[i])@.len() by {
                assert(mv(m@)[i] == vv(m@[i]@));
            }
        }
        let col = col_of(m, j);
        proof {
            assert(transpose_v(mv(m@), c as int)[j as int] == col_v(mv(m@), j as int));
        }
        out.push(col);
        j = j + 1;
    }
    proof {
        assert forall|i: int| 0 <= i < c implies mv(out@)[i] == transpose_v(mv(m@), c as int)[i] by {
            assert(mv(out@)[i] == vv(out@[i]@));
        }
        assert(mv(out@) =~= transpose_v(mv(m@), c as int));
        assert forall|i: int| 0 <= i < c implies (#[trigger] mv(out@)[i]).len() == r && vec_wf(
            mv(out@)[i],
        ) by {
            assert(mv(out@)[i] == vv(out@[i]@));
            lemma_col_wf(mv(m@), r as int, c as int, i);
        }
    }
    out
}

#[verifier::loop_isolation(false)]
pub fn zero_vec(n: usize) -> (r: Vec<Rat>)
    ensures
        vv(r@) == zero_vec_v(n as nat),
        vec_wf(vv(r@)),
        r@.len() == n,
{
    let mut out: Vec<Rat> = Vec::new();
    let mut k: usize = 0;
    while k < n
        invariant
            0 <= k <= n,
            out@.len() == k,
            forall|i: int| 0 <= i < k ==> (#[trigger] out@[i])@ == rat_zero_v(),
        decreases n - k,
    {
        out.push(rat_zero());
        k = k + 1;
    }
    proof {
        assert forall|i: int| 0 <= i < n implies vv(out@)[i] == zero_vec_v(n as nat)[i]
            && (#[trigger] vv(out@)[i]).wf() by {
            assert(vv(out@)[i] == out@[i]@);
        }
        assert(vv(out@) =~= zero_vec_v(n as nat));
    }
    out
}

#[verifier::loop_isolation(false)]
pub fn zero_mat(r: usize, c: usize) -> (o: Vec<Vec<Rat>>)
    ensures
        mv(o@) == zero_mat_v(r as nat, c as nat),
        mat_wf(mv(o@), r as int, c as int),
{
    let mut out: Vec<Vec<Rat>> = Vec::new();
    let mut k: usize = 0;
    while k < r
        invariant
            0 <= k <= r,
            out@.len() == k,
            forall|i: int| 0 <= i < k ==> vv((#[trigger] out@[i])@) == zero_vec_v(c as nat)
                && out@[i]@.len() == c,
        decreases r - k,
    {
        let row = zero_vec(c);
        out.push(row);
        k = k + 1;
    }
    proof {
        assert forall|i: int| 0 <= i < r implies mv(out@)[i] == zero_mat_v(r as nat, c as nat)[i] by {
            assert(mv(out@)[i] == vv(out@[i]@));
        }
        assert(mv(out@) =~= zero_mat_v(r as nat, c as nat));
        assert forall|i: int| 0 <= i < r implies (#[trigger] mv(out@)[i]).len() == c && vec_wf(
            mv(out@)[i],
        ) by {
            assert(mv(out@)[i] == vv(out@[i]@));
            assert forall|jj: int| 0 <= jj < c implies (#[trigger] mv(out@)[i][jj]).wf() by {
                assert(mv(out@)[i][jj] == rat_zero_v());
            }
        }
    }
    out
}

#[verifier::loop_isolation(false)]
pub fn identity(n: usize) -> (o: Vec<Vec<Rat>>)
    ensures
        mv(o@) == identity_v(n as nat),
        mat_wf(mv(o@), n as int, n as int),
{
    let mut out: Vec<Vec<Rat>> = Vec::new();
    let mut k: usize = 0;
    while k < n
        invariant
            0 <= k <= n,
            out@.len() == k,
            forall|i: int| 0 <= i < k ==> vv((#[trigger] out@[i])@) == identity_v(n as nat)[i]
                && out@[i]@.len() == n,
        decreases n - k,
    {
        let mut row: Vec<Rat> = Vec::new();
        let mut j: usize = 0;
        while j < n
            invariant
                0 <= j <= n,
                k < n,
                row@.len() == j,
                forall|i: int| 0 <= i < j ==> (#[trigger] row@[i])@ == identity_v(
                    n as nat,
                )[k as int][i],
            decreases n - j,
        {
            if j == k {
                row.push(rat_one());
            } else {
                row.push(rat_zero());
            }
            j = j + 1;
        }
        proof {
            assert forall|i: int| 0 <= i < n implies vv(row@)[i] == identity_v(
                n as nat,
            )[k as int][i] by {
                assert(vv(row@)[i] == row@[i]@);
            }
            assert(vv(row@) =~= identity_v(n as nat)[k as int]);
        }
        out.push(row);
        k = k + 1;
    }
    proof {
        assert forall|i: int| 0 <= i < n implies mv(out@)[i] == identity_v(n as nat)[i] by {
            assert(mv(out@)[i] == vv(out@[i]@));
        }
        assert(mv(out@) =~= identity_v(n as nat));
        assert forall|i: int| 0 <= i < n implies (#[trigger] mv(out@)[i]).len() == n && vec_wf(
            mv(out@)[i],
        ) by {
            assert(mv(out@)[i] == vv(out@[i]@));
            assert forall|jj: int| 0 <= jj < n implies (#[trigger] mv(out@)[i][jj]).wf() by {
                assert(mv(out@)[i][jj] == identity_v(n as nat)[i][jj]);
            }
        }
    }
    out
}

#[verifier::loop_isolation(false)]
pub fn mat_vec_mul(a: &Vec<Vec<Rat>>, x: &Vec<Rat>, r: usize, c: usize) -> (o: Vec<Rat>)
    requires
        mat_wf(mv(a@), r as int, c as int),
        x@.len() == c,
        vec_wf(vv(x@)),
        mat_vec_fits(mv(a@), vv(x@)),
    ensures
        vv(o@) == mat_vec_v(mv(a@), vv(x@)),
        vec_wf(vv(o@)),
        o@.len() == r,
{
    let mut out: Vec<Rat> = Vec::new();
    let mut k: usize = 0;
    while k < r
        invariant
            0 <= k <= r,
            a@.len() == r,
            out@.len() == k,
            forall|i: int| 0 <= i < k ==> (#[trigger] out@[i])@ == mat_vec_v(mv(a@), vv(x@))[i]
                && out@[i]@.wf(),
        decreases r - k,
    {
        proof {
            assert(mv(a@)[k as int] == vv(a@[k as int]@));
        }
        let e = dot(&a[k], x);
        proof {
            assert(mat_vec_v(mv(a@), vv(x@))[k as int] == dot_v(mv(a@)[k as int], vv(x@)));
        }
        out.push(e);
        k = k + 1;
    }
    proof {
        assert forall|i: int| 0 <= i < r implies vv(out@)[i] == mat_vec_v(mv(a@), vv(x@))[i]
            && (#[trigger] vv(out@)[i]).wf() by {
            assert(vv(out@)[i] == out@[i]@);
        }
        assert(vv(out@) =~= mat_vec_v(mv(a@), vv(x@)));
    }
    out
}

#[verifier::loop_isolation(false)]
pub fn mat_mul(a: &Vec<Vec<Rat>>, b: &Vec<Vec<Rat>>, r: usize, m: usize, p: usize) -> (o: Vec<
    Vec<Rat>,
>)
    requires
        mat_wf(mv(a@), r as int, m as int),
        mat_wf(mv(b@), m as int, p as int),
        mat_mul_fits(mv(a@), mv(b@), p as int),
    ensures
        mv(o@) == mat_mul_v(mv(a@), mv(b@), p as int),
        mat_wf(mv(o@), r as int, p as int),
{
    let mut out: Vec<Vec<Rat>> = Vec::new();
    let mut k: usize = 0;
    while k < r
        invariant
            0 <= k <= r,
            a@.len() == r,
            out@.len() == k,
            forall|i: int| 0 <= i < k ==> vv((#[trigger] out@[i])@) == mat_mul_v(
                mv(a@),
                mv(b@),
                p as int,
            )[i] && vec_wf(vv(out@[i]@)) && out@[i]@.len() == p,
        decreases r - k,
    {
        let mut row: Vec<Rat> = Vec::new();
        let mut j: usize = 0;
        while j < p
            invariant
                0 <= j <= p,
                k < r,
                row@.len() == j,
                forall|i: int| 0 <= i < j ==> (#[trigger] row@[i])@ == mat_mul_v(
                    mv(a@),
                    mv(b@),
                    p as int,
                )[k as int][i] && row@[i]@.wf(),
            decreases p - j,
        {
            proof {
                assert forall|i: int| 0 <= i < b@.len() implies (j as int) < (
                #[trigger] b@[i])@.len() by {
                    assert(mv(b@)[i] == vv(b@[i]@));
                }
            }
            let col = col_of(b, j);
            proof {
                lemma_col_wf(mv(b@), m as int, p as int, j as int);
                assert(mv(a@)[k as int] == vv(a@[k as int]@));
                assert(dot_fits(mv(a@)[k as int], col_v(mv(b@), j as int)));
            }
            let e = dot(&a[k], &col);
            proof {
                assert(mat_mul_v(mv(a@), mv(b@), p as int)[k as int][j as int] == dot_v(
                    mv(a@)[k as int],
                    col_v(mv(b@), j as int),
                ));
            }
            row.push(e);
            j = j + 1;
        }
        proof {
            assert forall|i: int| 0 <= i < p implies vv(row@)[i] == mat_mul_v(
                mv(a@),
                mv(b@),
                p as int,
            )[k as int][i] && (#[trigger] vv(row@)[i]).wf() by {
                assert(vv(row@)[i] == row@[i]@);
            }
            assert(vv(row@) =~= mat_mul_v(mv(a@), mv(b@), p as int)[k as int]);
        }
        out.push(row);
        k = k + 1;
    }
    proof {
        assert forall|i: int| 0 <= i < r implies mv(out@)[i] == mat_mul_v(
            mv(a@),
            mv(b@),
            p as int,
        )[i] by {
            assert(mv(out@)[i] == vv(out@[i]@));
        }
        assert(mv(out@) =~= mat_mul_v(mv(a@), mv(b@), p as int));
        assert forall|i: int| 0 <= i < r implies (#[trigger] mv(out@)[i]).len() == p && vec_wf(
            mv(out@)[i],
        ) by {
            assert(mv(out@)[i] == vv(out@[i]@));
        }
    }
    out
}


#[verifier::loop_isolation(false)]
pub fn clone_vec(x: &Vec<Rat>) -> (r: Vec<Rat>)
    ensures
        r@ == x@,
{
    let mut out: Vec<Rat> = Vec::new();
    let mut k: usize = 0;
    while k < x.len()
        invariant
            0 <= k <= x@.len(),
            out@.len() == k,
            forall|i: int| 0 <= i < k ==> #[trigger] out@[i] == x@[i],
        decreases x@.len() - k,
    {
        out.push(x[k]);
        k = k + 1;
    }
    proof {
        assert(out@ =~= x@);
    }
    out
}

#[verifier::loop_isolation(false)]
pub fn clone_mat(x: &Vec<Vec<Rat>>) -> (r: Vec<Vec<Rat>>)
    ensures
        mv(r@) == mv(x@),
        r@.len() == x@.len(),
{
    let mut out: Vec<Vec<Rat>> = Vec::new();
    let mut k: usize = 0;
    while k < x.len()
        invariant
            0 <= k <= x@.len(),
            out@.len() == k,
            forall|i: int| 0 <= i < k ==> (#[trigger] out@[i])@ == x@[i]@,
        decreases x@.len() - k,
    {
        let row = clone_vec(&x[k]);
        out.push(row);
        k = k + 1;
    }
    proof {
        assert forall|i: int| 0 <= i < x@.len() implies mv(out@)[i] == mv(x@)[i] by {
            assert(mv(out@)[i] == vv(out@[i]@));
            assert(mv(x@)[i] == vv(x@[i]@));
        }
        assert(mv(out@) =~= mv(x@));
    }
    out
}

} // verus!
