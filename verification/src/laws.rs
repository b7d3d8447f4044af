//! Laws of the filter that relate several operations, proved over the
//! mathematical model.
//!
//! The central one: for a symmetric covariance and symmetric process noise,
//! the predicted covariance `(F dt) P (F dt)^T + Q` is symmetric. Entry
//! `(i, j)` of `A P A^T` is the double sum over `k, l` of
//! `A[i][l] P[l][k] A[j][k]`; exchanging the two summation indices and using
//! the symmetry of `P` turns it into entry `(j, i)`.

use vstd::prelude::*;

use crate::filter::KalmanFilter;
use crate::matrix::{
    col_v, dot_prefix_v, mat_mul_v, mat_wf, mv, scalar_mul_v, transpose_v, vec_scale_v, vec_wf,
    MatV,
};
use crate::rational::{
    lemma_add_wf, lemma_mul_dist, lemma_mul_wf, lemma_same_add, lemma_same_mul, lemma_same_trans,
    rat_add_v, rat_mul_v, rat_zero_v, RatV,
};

verus! {

/// The matrix is symmetric in value: entry `(i, j)` denotes the same number
/// as entry `(j, i)`.
pub open spec fn mat_sym(m: MatV, n: int) -> bool {
    forall|i: int, j: int|
        0 <= i < n && 0 <= j < n ==> (#[trigger] m[i][j]).same(m[j][i])
}

/// Sum of `f(k, l)` over `0 <= l < nl`, at a fixed `k`.
pub open spec fn row_sum(f: spec_fn(int, int) -> RatV, k: int, nl: int) -> RatV
    decreases nl,
{
    if nl <= 0 {
        rat_zero_v()
    } else {
        rat_add_v(row_sum(f, k, nl - 1), f(k, nl - 1))
    }
}

/// Sum of `f(k, l)` over `0 <= k < nk` and `0 <= l < nl`.
pub open spec fn grid_sum(f: spec_fn(int, int) -> RatV, nk: int, nl: int) -> RatV
    decreases nk,
{
    if nk <= 0 {
        rat_zero_v()
    } else {
        rat_add_v(grid_sum(f, nk - 1, nl), row_sum(f, nk - 1, nl))
    }
}

/// Rearranging a four-way sum; an exact identity of representations.
proof fn lemma_add_rearrange(a: RatV, b: RatV, c: RatV, d: RatV)
    ensures
        rat_add_v(rat_add_v(a, b), rat_add_v(c, d)) == rat_add_v(
            rat_add_v(a, c),
            rat_add_v(b, d),
        ),
{
    assert((a.n * b.d + b.n * a.d) * (c.d * d.d) == ((a.n * b.d) * (c.d * d.d)) + ((b.n * a.d)
        * (c.d * d.d))) by (nonlinear_arith);
    assert((c.n * d.d + d.n * c.d) * (a.d * b.d) == ((c.n * d.d) * (a.d * b.d)) + ((d.n * c.d)
        * (a.d * b.d))) by (nonlinear_arith);
    assert((a.n * c.d + c.n * a.d) * (b.d * d.d) == ((a.n * c.d) * (b.d * d.d)) + ((c.n * a.d)
        * (b.d * d.d))) by (nonlinear_arith);
    assert((b.n * d.d + d.n * b.d) * (a.d * c.d) == ((b.n * d.d) * (a.d * c.d)) + ((d.n * b.d)
        * (a.d * c.d))) by (nonlinear_arith);
    assert((a.n * b.d) * (c.d * d.d) == (a.n * c.d) * (b.d * d.d)) by (nonlinear_arith);
    assert((b.n * a.d) * (c.d * d.d) == (b.n * d.d) * (a.d * c.d)) by (nonlinear_arith);
    assert((c.n * d.d) * (a.d * b.d) == (c.n * a.d) * (b.d * d.d)) by (nonlinear_arith);
    assert((d.n * c.d) * (a.d * b.d) == (d.n * b.d) * (a.d * c.d)) by (nonlinear_arith);
    assert((a.d * b.d) * (c.d * d.d) == (a.d * c.d) * (b.d * d.d)) by (nonlinear_arith);
}

/// A grid of empty width sums to zero, whatever the function.
proof fn lemma_grid_sum_nil(f: spec_fn(int, int) -> RatV, nk: int, w: int)
    requires
        w <= 0,
    ensures
        grid_sum(f, nk, w) == rat_zero_v(),
    decreases nk,
{
    if nk > 0 {
        lemma_grid_sum_nil(f, nk - 1, w);
    }
}

/// Peeling the last column off a grid sum.
proof fn lemma_grid_sum_peel(
    g: spec_fn(int, int) -> RatV,
    f: spec_fn(int, int) -> RatV,
    nl: int,
    nk: int,
)
    requires
        nk >= 1,
        forall|k: int, l: int| #[trigger] g(l, k) == f(k, l),
    ensures
        grid_sum(g, nl, nk) == rat_add_v(grid_sum(g, nl, nk - 1), row_sum(f, nk - 1, nl)),
    decreases nl,
{
    if nl <= 0 {
    } else {
        lemma_grid_sum_peel(g, f, nl - 1, nk);
        lemma_add_rearrange(
            grid_sum(g, nl - 1, nk - 1),
            row_sum(f, nk - 1, nl - 1),
            row_sum(g, nl - 1, nk - 1),
            g(nl - 1, nk - 1),
        );
    }
}

/// Exchanging the two summation indices; an exact identity of
/// representations.
proof fn lemma_grid_sum_swap(
    f: spec_fn(int, int) -> RatV,
    g: spec_fn(int, int) -> RatV,
    nk: int,
    nl: int,
)
    requires
        forall|k: int, l: int| #[trigger] g(l, k) == f(k, l),
    ensures
        grid_sum(f, nk, nl) == grid_sum(g, nl, nk),
    decreases nk,
{
    if nk <= 0 {
        lemma_grid_sum_nil(g, nl, nk);
    } else {
        lemma_grid_sum_swap(f, g, nk - 1, nl);
        lemma_grid_sum_peel(g, f, nl, nk);
    }
}

/// A row sum of well-formed values is well formed.
proof fn lemma_row_sum_wf(f: spec_fn(int, int) -> RatV, k: int, nl: int)
    requires
        forall|l: int| 0 <= l < nl ==> (#[trigger] f(k, l)).wf(),
    ensures
        row_sum(f, k, nl).wf(),
    decreases nl,
{
    if nl > 0 {
        lemma_row_sum_wf(f, k, nl - 1);
        lemma_add_wf(row_sum(f, k, nl - 1), f(k, nl - 1));
    }
}

/// A grid sum of well-formed values is well formed.
proof fn lemma_grid_sum_wf(f: spec_fn(int, int) -> RatV, nk: int, nl: int)
    requires
        forall|k: int, l: int| 0 <= k < nk && 0 <= l < nl ==> (#[trigger] f(k, l)).wf(),
    ensures
        grid_sum(f, nk, nl).wf(),
    decreases nk,
{
    if nk > 0 {
        lemma_grid_sum_wf(f, nk - 1, nl);
        lemma_row_sum_wf(f, nk - 1, nl);
        lemma_add_wf(grid_sum(f, nk - 1, nl), row_sum(f, nk - 1, nl));
    }
}

/// Two rows of pairwise-same well-formed values sum to the same value.
proof fn lemma_row_sum_same(
    a: spec_fn(int, int) -> RatV,
    ka: int,
    b: spec_fn(int, int) -> RatV,
    kb: int,
    nl: int,
)
    requires
        forall|l: int| 0 <= l < nl ==> (#[trigger] a(ka, l)).wf(),
        forall|l: int| 0 <= l < nl ==> (#[trigger] b(kb, l)).wf(),
        forall|l: int| 0 <= l < nl ==> (#[trigger] a(ka, l)).same(b(kb, l)),
    ensures
        row_sum(a, ka, nl).same(row_sum(b, kb, nl)),
    decreases nl,
{
    if nl <= 0 {
    } else {
        lemma_row_sum_same(a, ka, b, kb, nl - 1);
        lemma_same_add(row_sum(a, ka, nl - 1), row_sum(b, kb, nl - 1), a(ka, nl - 1), b(kb, nl - 1));
    }
}

/// Two grids of pairwise-same well-formed values sum to the same value.
proof fn lemma_grid_sum_same(
    a: spec_fn(int, int) -> RatV,
    b: spec_fn(int, int) -> RatV,
    nk: int,
    nl: int,
)
    requires
        forall|k: int, l: int| 0 <= k < nk && 0 <= l < nl ==> (#[trigger] a(k, l)).wf(),
        forall|k: int, l: int| 0 <= k < nk && 0 <= l < nl ==> (#[trigger] b(k, l)).wf(),
        forall|k: int, l: int| 0 <= k < nk && 0 <= l < nl ==> (#[trigger] a(k, l)).same(b(k, l)),
    ensures
        grid_sum(a, nk, nl).same(grid_sum(b, nk, nl)),
    decreases nk,
{
    if nk <= 0 {
    } else {
        lemma_grid_sum_same(a, b, nk - 1, nl);
        lemma_row_sum_same(a, nk - 1, b, nk - 1, nl);
        lemma_same_add(
            grid_sum(a, nk - 1, nl),
            grid_sum(b, nk - 1, nl),
            row_sum(a, nk - 1, nl),
            row_sum(b, nk - 1, nl),
        );
    }
}

/// A dot-product prefix written as a row sum.
proof fn lemma_dot_as_row_sum(
    x: Seq<RatV>,
    y: Seq<RatV>,
    h: spec_fn(int, int) -> RatV,
    k0: int,
    n: int,
)
    requires
        forall|l: int| 0 <= l < n ==> #[trigger] h(k0, l) == rat_mul_v(x[l], y[l]),
    ensures
        dot_prefix_v(x, y, n) == row_sum(h, k0, n),
    decreases n,
{
    if n > 0 {
        lemma_dot_as_row_sum(x, y, h, k0, n - 1);
    }
}

/// A dot-product prefix of well-formed entries is well formed.
proof fn lemma_dot_prefix_wf(x: Seq<RatV>, y: Seq<RatV>, n: int)
    requires
        forall|l: int| 0 <= l < n ==> (#[trigger] x[l]).wf(),
        forall|l: int| 0 <= l < n ==> (#[trigger] y[l]).wf(),
    ensures
        dot_prefix_v(x, y, n).wf(),
    decreases n,
{
    if n > 0 {
        lemma_dot_prefix_wf(x, y, n - 1);
        lemma_mul_wf(x[n - 1], y[n - 1]);
        lemma_add_wf(dot_prefix_v(x, y, n - 1), rat_mul_v(x[n - 1], y[n - 1]));
    }
}

/// Multiplying a row sum by a scalar equals summing the scaled terms.
proof fn lemma_row_sum_scale(
    f: spec_fn(int, int) -> RatV,
    h: spec_fn(int, int) -> RatV,
    c: RatV,
    k: int,
    nl: int,
)
    requires
        c.wf(),
        forall|l: int| 0 <= l < nl ==> (#[trigger] f(k, l)).wf(),
        forall|l: int| 0 <= l < nl ==> #[trigger] h(k, l) == rat_mul_v(f(k, l), c),
    ensures
        rat_mul_v(row_sum(f, k, nl), c).same(row_sum(h, k, nl)),
    decreases nl,
{
    if nl <= 0 {
        assert((0 * c.n) * 1 == 0 * (1 * c.d)) by (nonlinear_arith);
        assert(rat_mul_v(row_sum(f, k, nl), c).same(row_sum(h, k, nl)));
    } else {
        lemma_row_sum_scale(f, h, c, k, nl - 1);
        assert forall|l: int| 0 <= l < nl implies (#[trigger] h(k, l)).wf() by {
            lemma_mul_wf(f(k, l), c);
        }
        lemma_mul_dist(row_sum(f, k, nl - 1), f(k, nl - 1), c);
        lemma_row_sum_wf(f, k, nl - 1);
        lemma_mul_wf(row_sum(f, k, nl - 1), c);
        lemma_mul_wf(f(k, nl - 1), c);
        lemma_row_sum_wf(h, k, nl - 1);
        lemma_same_add(
            rat_mul_v(row_sum(f, k, nl - 1), c),
            row_sum(h, k, nl - 1),
            rat_mul_v(f(k, nl - 1), c),
            h(k, nl - 1),
        );
        lemma_add_wf(rat_mul_v(row_sum(f, k, nl - 1), c), rat_mul_v(f(k, nl - 1), c));
        assert(row_sum(f, k, nl) == rat_add_v(row_sum(f, k, nl - 1), f(k, nl - 1)));
        assert(row_sum(h, k, nl) == rat_add_v(row_sum(h, k, nl - 1), h(k, nl - 1)));
        assert(rat_mul_v(row_sum(f, k, nl), c).same(
            rat_add_v(rat_mul_v(row_sum(f, k, nl - 1), c), rat_mul_v(f(k, nl - 1), c)),
        ));
        assert(rat_add_v(rat_mul_v(row_sum(f, k, nl - 1), c), rat_mul_v(f(k, nl - 1), c)).same(
            row_sum(h, k, nl),
        ));
        lemma_same_trans(
            rat_mul_v(row_sum(f, k, nl), c),
            rat_add_v(rat_mul_v(row_sum(f, k, nl - 1), c), rat_mul_v(f(k, nl - 1), c)),
            row_sum(h, k, nl),
        );
    }
}


/// A grid sum written as a single row sum over its rows.
proof fn lemma_grid_as_row(
    w: spec_fn(int, int) -> RatV,
    sr: spec_fn(int, int) -> RatV,
    nk: int,
    nl: int,
)
    requires
        forall|k: int| #[trigger] sr(0, k) == row_sum(w, k, nl),
    ensures
        grid_sum(w, nk, nl) == row_sum(sr, 0, nk),
    decreases nk,
{
    if nk > 0 {
        lemma_grid_as_row(w, sr, nk - 1, nl);
    }
}

/// Reversing the outer factors of a two-fold product; an exact identity of
/// representations.
proof fn lemma_mul_flip(a: RatV, b: RatV, c: RatV)
    ensures
        rat_mul_v(rat_mul_v(a, b), c) == rat_mul_v(rat_mul_v(c, b), a),
{
    assert((a.n * b.n) * c.n == (c.n * b.n) * a.n) by (nonlinear_arith);
    assert((a.d * b.d) * c.d == (c.d * b.d) * a.d) by (nonlinear_arith);
}

/// Entry `(a, b)` of `fm P fm^T` denotes the double sum over `k, l` of
/// `fm[a][l] P[l][k] fm[b][k]`.
proof fn lemma_entry_as_grid(
    fm: MatV,
    p: MatV,
    n: int,
    a: int,
    b: int,
    w: spec_fn(int, int) -> RatV,
)
    requires
        mat_wf(fm, n, n),
        mat_wf(p, n, n),
        0 <= a < n,
        0 <= b < n,
        forall|k: int, l: int| #[trigger] w(k, l) == rat_mul_v(
            rat_mul_v(fm[a][l], p[l][k]),
            fm[b][k],
        ),
    ensures
        mat_mul_v(mat_mul_v(fm, p, n), transpose_v(fm, n), n)[a][b].same(grid_sum(w, n, n)),
        grid_sum(w, n, n).wf(),
{
    let fp = mat_mul_v(fm, p, n);
    let ft = transpose_v(fm, n);
    let t = |q: int, k: int| rat_mul_v(fp[a][k], fm[b][k]);
    let u = |k: int, l: int| rat_mul_v(fm[a][l], p[l][k]);

    assert forall|k: int, l: int| 0 <= k < n && 0 <= l < n implies (#[trigger] w(k, l)).wf() by {
        lemma_mul_wf(fm[a][l], p[l][k]);
        lemma_mul_wf(rat_mul_v(fm[a][l], p[l][k]), fm[b][k]);
    }

    assert forall|k: int| 0 <= k < n implies #[trigger] t(0, k) == rat_mul_v(
        fp[a][k],
        col_v(ft, b)[k],
    ) by {
        assert(col_v(ft, b)[k] == ft[k][b]);
        assert(ft[k] == col_v(fm, k));
        assert(col_v(fm, k)[b] == fm[b][k]);
    }
    lemma_dot_as_row_sum(fp[a], col_v(ft, b), t, 0, n);
    assert(mat_mul_v(fp, ft, n)[a][b] == row_sum(t, 0, n));

    assert forall|k: int| 0 <= k < n implies (#[trigger] t(0, k)).same(row_sum(w, k, n)) && t(
        0,
        k,
    ).wf() by {
        assert forall|l: int| 0 <= l < n implies #[trigger] u(k, l) == rat_mul_v(
            fm[a][l],
            col_v(p, k)[l],
        ) by {
            assert(col_v(p, k)[l] == p[l][k]);
        }
        lemma_dot_as_row_sum(fm[a], col_v(p, k), u, k, n);
        assert(fp[a][k] == row_sum(u, k, n));
        assert forall|l: int| 0 <= l < n implies (#[trigger] u(k, l)).wf() by {
            lemma_mul_wf(fm[a][l], p[l][k]);
        }
        assert forall|l: int| 0 <= l < n implies #[trigger] w(k, l) == rat_mul_v(
            u(k, l),
            fm[b][k],
        ) by {}
        lemma_row_sum_scale(u, w, fm[b][k], k, n);
        lemma_row_sum_wf(u, k, n);
        lemma_mul_wf(row_sum(u, k, n), fm[b][k]);
    }

    let sr = |q: int, k: int| row_sum(w, k, n);
    lemma_grid_as_row(w, sr, n, n);
    assert forall|k: int| 0 <= k < n implies (#[trigger] sr(0, k)).wf() by {
        lemma_row_sum_wf(w, k, n);
    }
    lemma_row_sum_same(t, 0, sr, 0, n);
    lemma_grid_sum_wf(w, n, n);
}

/// Entries `(i, j)` and `(j, i)` of `fm P fm^T` denote the same number when
/// `P` is symmetric.
proof fn lemma_triple_product_sym_entry(fm: MatV, p: MatV, n: int, i: int, j: int)
    requires
        mat_wf(fm, n, n),
        mat_wf(p, n, n),
        mat_sym(p, n),
        0 <= i < n,
        0 <= j < n,
    ensures
        mat_mul_v(mat_mul_v(fm, p, n), transpose_v(fm, n), n)[i][j].same(
            mat_mul_v(mat_mul_v(fm, p, n), transpose_v(fm, n), n)[j][i],
        ),
{
    let g = mat_mul_v(mat_mul_v(fm, p, n), transpose_v(fm, n), n);
    let w_ij = |k: int, l: int| rat_mul_v(rat_mul_v(fm[i][l], p[l][k]), fm[j][k]);
    let w_ji = |k: int, l: int| rat_mul_v(rat_mul_v(fm[j][l], p[l][k]), fm[i][k]);
    let w_ji_f = |k: int, l: int| rat_mul_v(rat_mul_v(fm[j][k], p[k][l]), fm[i][l]);

    lemma_entry_as_grid(fm, p, n, i, j, w_ij);
    lemma_entry_as_grid(fm, p, n, j, i, w_ji);
    lemma_grid_sum_swap(w_ji, w_ji_f, n, n);

    assert forall|k: int, l: int| 0 <= k < n && 0 <= l < n implies (#[trigger] w_ij(k, l)).wf() by {
        lemma_mul_wf(fm[i][l], p[l][k]);
        lemma_mul_wf(rat_mul_v(fm[i][l], p[l][k]), fm[j][k]);
    }
    assert forall|k: int, l: int| 0 <= k < n && 0 <= l < n implies (#[trigger] w_ji_f(
        k,
        l,
    )).same(w_ij(k, l)) && w_ji_f(k, l).wf() by {
        lemma_mul_flip(fm[j][k], p[k][l], fm[i][l]);
        lemma_same_mul(fm[i][l], fm[i][l], p[k][l], p[l][k]);
        lemma_same_mul(
            rat_mul_v(fm[i][l], p[k][l]),
            rat_mul_v(fm[i][l], p[l][k]),
            fm[j][k],
            fm[j][k],
        );
        lemma_mul_wf(fm[j][k], p[k][l]);
        lemma_mul_wf(rat_mul_v(fm[j][k], p[k][l]), fm[i][l]);
        lemma_mul_wf(fm[i][l], p[l][k]);
        lemma_mul_wf(rat_mul_v(fm[i][l], p[l][k]), fm[j][k]);
    }
    lemma_grid_sum_same(w_ji_f, w_ij, n, n);

    lemma_same_trans(g[j][i], grid_sum(w_ji_f, n, n), grid_sum(w_ij, n, n));
    lemma_same_trans(g[i][j], grid_sum(w_ij, n, n), g[j][i]);
}

/// For a positive time step, a symmetric covariance and symmetric process
/// noise, the predicted covariance `(F dt) P (F dt)^T + Q` is symmetric.
pub proof fn lemma_predict_covariance_symmetric(f: KalmanFilter, p: MatV, dt: RatV)
    requires
        f.wf(),
        dt.wf(),
        dt.is_pos(),
        mat_wf(p, f.n(), f.n()),
        mat_sym(p, f.n()),
        mat_sym(mv(f.process_noise@), f.n()),
    ensures
        mat_sym(f.predict_cov_v(p, dt), f.n()),
{
    let n = f.n();
    let am = mv(f.transition_model@);
    let fm = scalar_mul_v(am, dt);
    let q = mv(f.process_noise@);
    assert forall|i: int| 0 <= i < n implies (#[trigger] fm[i]).len() == n && vec_wf(fm[i]) by {
        assert(fm[i] == vec_scale_v(am[i], dt));
        assert forall|l: int| 0 <= l < n implies (#[trigger] fm[i][l]).wf() by {
            assert(fm[i][l] == rat_mul_v(am[i][l], dt));
            lemma_mul_wf(am[i][l], dt);
        }
    }
    let g = mat_mul_v(mat_mul_v(fm, p, n), transpose_v(fm, n), n);
    let pc = f.predict_cov_v(p, dt);
    assert forall|i: int, j: int| 0 <= i < n && 0 <= j < n implies (#[trigger] pc[i][j]).same(
        pc[j][i],
    ) by {
        lemma_triple_product_sym_entry(fm, p, n, i, j);
        assert(pc[i][j] == rat_add_v(g[i][j], q[i][j]));
        assert(pc[j][i] == rat_add_v(g[j][i], q[j][i]));
        lemma_same_add(g[i][j], g[j][i], q[i][j], q[j][i]);
    }
}

/// predict is deterministic: its contract pins both components of the
/// result as functions of the filter, the inputs and the time step alone.
pub proof fn lemma_predict_deterministic(
    f: KalmanFilter,
    x: Seq<RatV>,
    p: MatV,
    dt: RatV,
    u: Seq<RatV>,
    r1: (Seq<RatV>, MatV),
    r2: (Seq<RatV>, MatV),
)
    requires
        r1.0 == f.predict_state_v(x, dt, u),
        r1.1 == f.predict_cov_v(p, dt),
        r2.0 == f.predict_state_v(x, dt, u),
        r2.1 == f.predict_cov_v(p, dt),
    ensures
        r1 == r2,
{
}

/// update is deterministic: its contract pins both components of the result
/// as functions of the filter, the inputs and the observation alone.
pub proof fn lemma_update_deterministic(
    f: KalmanFilter,
    x: Seq<RatV>,
    p: MatV,
    z: Seq<RatV>,
    rn: MatV,
    r1: (Seq<RatV>, MatV),
    r2: (Seq<RatV>, MatV),
)
    requires
        r1.0 == f.update_state_v(x, p, z, rn),
        r1.1 == f.update_cov_v(p, rn),
        r2.0 == f.update_state_v(x, p, z, rn),
        r2.1 == f.update_cov_v(p, rn),
    ensures
        r1 == r2,
{
}

} // verus!
