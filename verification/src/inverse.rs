//! Exact square-matrix inversion.
//!
//! The determinant is the Laplace expansion along the first row, and the
//! inverse is the adjugate divided by the determinant. Arithmetic is exact,
//! so a matrix is singular exactly when its determinant is zero, and
//! `invert` reports that case precisely.

use vstd::prelude::*;

use crate::matrix::{mat_wf, mv, vec_wf, vv, MatV};
use crate::rational::{
    add_fits, div_fits, mul_fits, neg_fits, rat_add, rat_add_v, rat_div, rat_div_v, rat_mul,
    rat_mul_v, rat_neg, rat_neg_v, rat_one, rat_one_v, rat_zero, rat_zero_v, Rat, RatV,
};

verus! {

/// The matrix `m` with row `r0` and column `c0` removed.
pub open spec fn minor_v(m: MatV, r0: int, c0: int) -> MatV {
    Seq::new(
        (m.len() - 1) as nat,
        |i: int|
            Seq::new(
                (m.len() - 1) as nat,
                |j: int| m[if i < r0 { i } else { i + 1 }][if j < c0 { j } else { j + 1 }],
            ),
    )
}

/// Determinant by Laplace expansion along the first row; the empty matrix
/// has determinant one.
pub open spec fn det_v(m: MatV) -> RatV
    decreases m.len(), m.len() + 1,
{
    if m.len() == 0 {
        rat_one_v()
    } else {
        cof_sum_v(m, m.len() as int)
    }
}

/// Sum of the first `j` signed cofactor terms of the first row.
pub open spec fn cof_sum_v(m: MatV, j: int) -> RatV
    decreases m.len(), j,
{
    if j <= 0 {
        rat_zero_v()
    } else {
        rat_add_v(cof_sum_v(m, j - 1), cof_term_v(m, j - 1))
    }
}

/// The signed cofactor term `(-1)^j m[0][j] det(minor(m, 0, j))`.
pub open spec fn cof_term_v(m: MatV, j: int) -> RatV
    decreases m.len(), j,
{
    if m.len() == 0 {
        rat_zero_v()
    } else {
        let c = rat_mul_v(m[0][j], det_v(minor_v(m, 0, j)));
        if j % 2 == 0 {
            c
        } else {
            rat_neg_v(c)
        }
    }
}

/// All intermediate products of the determinant computation fit in `i128`.
pub open spec fn det_fits(m: MatV) -> bool
    decreases m.len(), m.len() + 1,
{
    if m.len() == 0 {
        true
    } else {
        cof_sum_fits(m, m.len() as int)
    }
}

pub open spec fn cof_sum_fits(m: MatV, j: int) -> bool
    decreases m.len(), j,
{
    if j <= 0 {
        true
    } else {
        &&& cof_sum_fits(m, j - 1)
        &&& cof_term_fits(m, j - 1)
        &&& add_fits(cof_sum_v(m, j - 1), cof_term_v(m, j - 1))
    }
}

pub open spec fn cof_term_fits(m: MatV, j: int) -> bool
    decreases m.len(), j,
{
    if m.len() == 0 {
        true
    } else {
        &&& det_fits(minor_v(m, 0, j))
        &&& mul_fits(m[0][j], det_v(minor_v(m, 0, j)))
        &&& (j % 2 == 0 || neg_fits(rat_mul_v(m[0][j], det_v(minor_v(m, 0, j)))))
    }
}

/// A fits bound on a long cofactor sum carries down to every shorter one.
pub proof fn lemma_cof_sum_fits_mono(m: MatV, j: int, k: int)
    requires
        j <= k,
        cof_sum_fits(m, k),
    ensures
        cof_sum_fits(m, j),
    decreases k - j,
{
    if j < k {
        lemma_cof_sum_fits_mono(m, j, k - 1);
    }
}

/// Entry `(i, j)` of the adjugate: the signed cofactor of `m[j][i]`.
pub open spec fn adj_entry_v(m: MatV, i: int, j: int) -> RatV {
    if (i + j) % 2 == 0 {
        det_v(minor_v(m, j, i))
    } else {
        rat_neg_v(det_v(minor_v(m, j, i)))
    }
}

/// The inverse of a nonsingular matrix: adjugate over determinant.
pub open spec fn inverse_v(m: MatV) -> MatV {
    Seq::new(
        m.len(),
        |i: int| Seq::new(m.len(), |j: int| rat_div_v(adj_entry_v(m, i, j), det_v(m))),
    )
}

pub open spec fn adj_entry_fits(m: MatV, i: int, j: int) -> bool {
    &&& det_fits(minor_v(m, j, i))
    &&& ((i + j) % 2 == 0 || neg_fits(det_v(minor_v(m, j, i))))
    &&& div_fits(adj_entry_v(m, i, j), det_v(m))
}

/// All intermediate products of `invert` fit in `i128`. Nothing past the
/// determinant is computed on a singular matrix, so nothing more is asked.
pub open spec fn invert_fits(m: MatV) -> bool {
    &&& det_fits(m)
    &&& (det_v(m).is_zero() || forall|i: int, j: int|
        0 <= i < m.len() && 0 <= j < m.len() ==> #[trigger] adj_entry_fits(m, i, j))
}

#[verifier::loop_isolation(false)]
pub fn minor(m: &Vec<Vec<Rat>>, r0: usize, c0: usize) -> (o: Vec<Vec<Rat>>)
    requires
        m@.len() >= 1,
        mat_wf(mv(m@), m@.len() as int, m@.len() as int),
        r0 < m@.len(),
        c0 < m@.len(),
    ensures
        mv(o@) == minor_v(mv(m@), r0 as int, c0 as int),
        mat_wf(mv(o@), m@.len() - 1, m@.len() - 1),
{
    let n = m.len();
    let mut out: Vec<Vec<Rat>> = Vec::new();
    let mut i: usize = 0;
    while i < n - 1
        invariant
            0 <= i <= n - 1,
            out@.len() == i,
            forall|ii: int| 0 <= ii < i ==> vv((#[trigger] out@[ii])@) == minor_v(
                mv(m@),
                r0 as int,
                c0 as int,
            )[ii] && out@[ii]@.len() == n - 1,
        decreases n - 1 - i,
    {
        let si = if i < r0 { i } else { i + 1 };
        let mut row: Vec<Rat> = Vec::new();
        let mut jj: usize = 0;
        while jj < n - 1
            invariant
                0 <= jj <= n - 1,
                i < n - 1,
                si == (if i < r0 { i as int } else { i as int + 1 }),
                si < n,
                row@.len() == jj,
                forall|q: int| 0 <= q < jj ==> (#[trigger] row@[q])@ == minor_v(
                    mv(m@),
                    r0 as int,
                    c0 as int,
                )[i as int][q],
            decreases n - 1 - jj,
        {
            let sj = if jj < c0 { jj } else { jj + 1 };
            proof {
                assert(mv(m@)[si as int] == vv(m@[si as int]@));
                assert(minor_v(mv(m@), r0 as int, c0 as int)[i as int][jj as int] == mv(
                    m@,
                )[si as int][sj as int]);
            }
            row.push(m[si][sj]);
            jj = jj + 1;
        }
        proof {
            assert forall|q: int| 0 <= q < n - 1 implies vv(row@)[q] == minor_v(
                mv(m@),
                r0 as int,
                c0 as int,
            )[i as int][q] by {
                assert(vv(row@)[q] == row@[q]@);
            }
            assert(vv(row@) =~= minor_v(mv(m@), r0 as int, c0 as int)[i as int]);
        }
        out.push(row);
        i = i + 1;
    }
    proof {
        assert forall|ii: int| 0 <= ii < n - 1 implies mv(out@)[ii] == minor_v(
            mv(m@),
            r0 as int,
            c0 as int,
        )[ii] by {
            assert(mv(out@)[ii] == vv(out@[ii]@));
        }
        assert(mv(out@) =~= minor_v(mv(m@), r0 as int, c0 as int));
        assert forall|ii: int| 0 <= ii < n - 1 implies (#[trigger] mv(out@)[ii]).len() == n - 1
            && vec_wf(mv(out@)[ii]) by {
            assert(mv(out@)[ii] == vv(out@[ii]@));
            assert forall|q: int| 0 <= q < n - 1 implies (#[trigger] mv(out@)[ii][q]).wf() by {
                let si = if ii < r0 { ii } else { ii + 1 };
                let sq = if q < c0 { q } else { q + 1 };
                assert(mv(out@)[ii][q] == mv(m@)[si][sq]);
            }
        }
    }
    out
}

#[verifier::loop_isolation(false)]
pub fn det(m: &Vec<Vec<Rat>>) -> (r: Rat)
    requires
        mat_wf(mv(m@), m@.len() as int, m@.len() as int),
        det_fits(mv(m@)),
    ensures
        r@ == det_v(mv(m@)),
        r@.wf(),
    decreases m@.len(),
{
    let n = m.len();
    if n == 0 {
        return rat_one();
    }
    let mut acc = rat_zero();
    let mut j: usize = 0;
    while j < n
        invariant
            0 <= j <= n,
            acc@ == cof_sum_v(mv(m@), j as int),
            acc@.wf(),
        decreases n - j,
    {
        proof {
            lemma_cof_sum_fits_mono(mv(m@), j as int + 1, n as int);
            assert(cof_term_fits(mv(m@), j as int));
            assert(mv(m@)[0] == vv(m@[0]@));
        }
        let sub = minor(m, 0, j);
        let d = det(&sub);
        let c = rat_mul(m[0][j], d);
        let t = if j % 2 == 0 {
            c
        } else {
            rat_neg(c)
        };
        proof {
            assert(t@ == cof_term_v(mv(m@), j as int));
        }
        acc = rat_add(acc, t);
        j = j + 1;
    }
    acc
}

#[verifier::loop_isolation(false)]
pub fn invert(s: &Vec<Vec<Rat>>) -> (o: Option<Vec<Vec<Rat>>>)
    requires
        s@.len() >= 1,
        mat_wf(mv(s@), s@.len() as int, s@.len() as int),
        invert_fits(mv(s@)),
    ensures
        o is Some <==> !det_v(mv(s@)).is_zero(),
        o is Some ==> mv(o->Some_0@) == inverse_v(mv(s@)),
        o is Some ==> mat_wf(mv(o->Some_0@), s@.len() as int, s@.len() as int),
{
    let n = s.len();
    let d = det(s);
    if d.num == 0 {
        return None;
    }
    let mut out: Vec<Vec<Rat>> = Vec::new();
    let mut i: usize = 0;
    while i < n
        invariant
            0 <= i <= n,
            out@.len() == i,
            !det_v(mv(s@)).is_zero(),
            d@ == det_v(mv(s@)),
            d@.wf(),
            forall|ii: int| 0 <= ii < i ==> vv((#[trigger] out@[ii])@) == inverse_v(mv(s@))[ii]
                && vec_wf(vv(out@[ii]@)) && out@[ii]@.len() == n,
        decreases n - i,
    {
        let mut row: Vec<Rat> = Vec::new();
        let mut j: usize = 0;
        while j < n
            invariant
                0 <= j <= n,
                i < n,
                row@.len() == j,
                forall|q: int| 0 <= q < j ==> (#[trigger] row@[q])@ == inverse_v(
                    mv(s@),
                )[i as int][q] && row@[q]@.wf(),
            decreases n - j,
        {
            proof {
                assert(adj_entry_fits(mv(s@), i as int, j as int));
            }
            let sub = minor(s, j, i);
            let dd = det(&sub);
            let c = if (i % 2) == (j % 2) {
                proof {
                    assert((i as int + j as int) % 2 == 0) by (nonlinear_arith)
                        requires
                            i as int % 2 == j as int % 2,
                            i >= 0,
                            j >= 0,
                    ;
                }
                dd
            } else {
                proof {
                    assert((i as int + j as int) % 2 != 0) by (nonlinear_arith)
                        requires
                            i as int % 2 != j as int % 2,
                            i >= 0,
                            j >= 0,
                    ;
                }
                rat_neg(dd)
            };
            proof {
                assert(c@ == adj_entry_v(mv(s@), i as int, j as int));
            }
            let e = rat_div(c, d);
            proof {
                assert(inverse_v(mv(s@))[i as int][j as int] == rat_div_v(
                    adj_entry_v(mv(s@), i as int, j as int),
                    det_v(mv(s@)),
                ));
            }
            row.push(e);
            j = j + 1;
        }
        proof {
            assert forall|q: int| 0 <= q < n implies vv(row@)[q] == inverse_v(mv(s@))[i as int][q]
                && (#[trigger] vv(row@)[q]).wf() by {
                assert(vv(row@)[q] == row@[q]@);
            }
            assert(vv(row@) =~= inverse_v(mv(s@))[i as int]);
        }
        out.push(row);
        i = i + 1;
    }
    proof {
        assert forall|ii: int| 0 <= ii < n implies mv(out@)[ii] == inverse_v(mv(s@))[ii] by {
            assert(mv(out@)[ii] == vv(out@[ii]@));
        }
        assert(mv(out@) =~= inverse_v(mv(s@)));
        assert forall|ii: int| 0 <= ii < n implies (#[trigger] mv(out@)[ii]).len() == n && vec_wf(
            mv(out@)[ii],
        ) by {
            assert(mv(out@)[ii] == vv(out@[ii]@));
        }
    }
    Some(out)
}

} // verus!
