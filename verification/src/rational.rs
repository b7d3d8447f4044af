//! Exact rational scalars.
//!
//! A `Rat` is a fraction of two `i128`s with a positive denominator. No
//! reduction is performed, so every executable operation lands on exactly the
//! representation its mathematical counterpart on unbounded integers
//! (`rat_add_v` and friends) prescribes, provided the intermediate products
//! stay inside `i128` (the `*_fits` predicates).

use vstd::prelude::*;

verus! {

/// Mathematical model of a rational scalar: an unbounded numerator and
/// denominator. Only values with a positive denominator are well formed.
pub ghost struct RatV {
    pub n: int,
    pub d: int,
}

impl RatV {
    /// Well-formedness: the denominator is positive.
    pub open spec fn wf(self) -> bool {
        self.d > 0
    }

    /// Two representations denote the same rational number.
    pub open spec fn same(self, other: RatV) -> bool {
        self.n * other.d == other.n * self.d
    }

    /// The represented number is zero.
    pub open spec fn is_zero(self) -> bool {
        self.n == 0
    }

    /// The represented number is strictly positive (assuming `wf`).
    pub open spec fn is_pos(self) -> bool {
        self.n > 0
    }
}

pub open spec fn rat_zero_v() -> RatV {
    RatV { n: 0, d: 1 }
}

pub open spec fn rat_one_v() -> RatV {
    RatV { n: 1, d: 1 }
}

pub open spec fn rat_add_v(a: RatV, b: RatV) -> RatV {
    RatV { n: a.n * b.d + b.n * a.d, d: a.d * b.d }
}

pub open spec fn rat_sub_v(a: RatV, b: RatV) -> RatV {
    RatV { n: a.n * b.d - b.n * a.d, d: a.d * b.d }
}

pub open spec fn rat_mul_v(a: RatV, b: RatV) -> RatV {
    RatV { n: a.n * b.n, d: a.d * b.d }
}

pub open spec fn rat_neg_v(a: RatV) -> RatV {
    RatV { n: -a.n, d: a.d }
}

/// Division keeps the denominator positive by moving the divisor's sign into
/// the numerator. Meaningful only for a nonzero divisor.
pub open spec fn rat_div_v(a: RatV, b: RatV) -> RatV {
    if b.n >= 0 {
        RatV { n: a.n * b.d, d: a.d * b.n }
    } else {
        RatV { n: -(a.n * b.d), d: -(a.d * b.n) }
    }
}

/// The integer fits in an `i128`.
pub open spec fn in_i128(x: int) -> bool {
    i128::MIN as int <= x <= i128::MAX as int
}

pub open spec fn add_fits(a: RatV, b: RatV) -> bool {
    &&& in_i128(a.n * b.d)
    &&& in_i128(b.n * a.d)
    &&& in_i128(a.n * b.d + b.n * a.d)
    &&& in_i128(a.d * b.d)
}

pub open spec fn sub_fits(a: RatV, b: RatV) -> bool {
    &&& in_i128(a.n * b.d)
    &&& in_i128(b.n * a.d)
    &&& in_i128(a.n * b.d - b.n * a.d)
    &&& in_i128(a.d * b.d)
}

pub open spec fn mul_fits(a: RatV, b: RatV) -> bool {
    &&& in_i128(a.n * b.n)
    &&& in_i128(a.d * b.d)
}

pub open spec fn neg_fits(a: RatV) -> bool {
    in_i128(-a.n)
}

pub open spec fn div_fits(a: RatV, b: RatV) -> bool {
    &&& in_i128(a.n * b.d)
    &&& in_i128(a.d * b.n)
    &&& in_i128(-(a.n * b.d))
    &&& in_i128(-(a.d * b.n))
}

/// An exact rational scalar: `num / den` with `den > 0`.
#[derive(Clone, Copy, Debug)]
pub struct Rat {
    pub num: i128,
    pub den: i128,
}

impl View for Rat {
    type V = RatV;

    open spec fn view(&self) -> RatV {
        RatV { n: self.num as int, d: self.den as int }
    }
}

impl Rat {
    /// Builds the rational `num / den`.
    pub fn new(num: i128, den: i128) -> (r: Rat)
        requires
            den > 0,
        ensures
            r@ == (RatV { n: num as int, d: den as int }),
            r@.wf(),
    {
        Rat { num, den }
    }
}

pub fn rat_zero() -> (r: Rat)
    ensures
        r@ == rat_zero_v(),
        r@.wf(),
{
    Rat { num: 0, den: 1 }
}

pub fn rat_one() -> (r: Rat)
    ensures
        r@ == rat_one_v(),
        r@.wf(),
{
    Rat { num: 1, den: 1 }
}

pub fn rat_add(a: Rat, b: Rat) -> (r: Rat)
    requires
        a@.wf(),
        b@.wf(),
        add_fits(a@, b@),
    ensures
        r@ == rat_add_v(a@, b@),
        r@.wf(),
{
    proof {
        assert(a.den as int * b.den as int > 0) by (nonlinear_arith)
            requires
                a.den > 0,
                b.den > 0,
        ;
    }
    Rat { num: a.num * b.den + b.num * a.den, den: a.den * b.den }
}

pub fn rat_sub(a: Rat, b: Rat) -> (r: Rat)
    requires
        a@.wf(),
        b@.wf(),
        sub_fits(a@, b@),
    ensures
        r@ == rat_sub_v(a@, b@),
        r@.wf(),
{
    proof {
        assert(a.den as int * b.den as int > 0) by (nonlinear_arith)
            requires
                a.den > 0,
                b.den > 0,
        ;
    }
    Rat { num: a.num * b.den - b.num * a.den, den: a.den * b.den }
}

pub fn rat_mul(a: Rat, b: Rat) -> (r: Rat)
    requires
        a@.wf(),
        b@.wf(),
        mul_fits(a@, b@),
    ensures
        r@ == rat_mul_v(a@, b@),
        r@.wf(),
{
    proof {
        assert(a.den as int * b.den as int > 0) by (nonlinear_arith)
            requires
                a.den > 0,
                b.den > 0,
        ;
    }
    Rat { num: a.num * b.num, den: a.den * b.den }
}

pub fn rat_neg(a: Rat) -> (r: Rat)
    requires
        a@.wf(),
        neg_fits(a@),
    ensures
        r@ == rat_neg_v(a@),
        r@.wf(),
{
    Rat { num: -a.num, den: a.den }
}

pub fn rat_div(a: Rat, b: Rat) -> (r: Rat)
    requires
        a@.wf(),
        b@.wf(),
        !b@.is_zero(),
        div_fits(a@, b@),
    ensures
        r@ == rat_div_v(a@, b@),
        r@.wf(),
{
    if b.num >= 0 {
        proof {
            assert(a.den as int * b.num as int > 0) by (nonlinear_arith)
                requires
                    a.den > 0,
                    b.num > 0,
            ;
        }
        Rat { num: a.num * b.den, den: a.den * b.num }
    } else {
        proof {
            assert((a.den as int) * (b.num as int) < 0) by (nonlinear_arith)
                requires
                    a.den > 0,
                    b.num < 0,
            ;
        }
        Rat { num: -(a.num * b.den), den: -(a.den * b.num) }
    }
}

/// Pure reorderings of a five-factor product.
pub proof fn lemma_mul_shuffle_a(p: int, q: int, r: int, s: int, t: int)
    ensures
        ((p * q) * r) * (s * t) == ((p * r) * t) * (s * q),
{
    assert(((p * q) * r) * (s * t) == ((p * r) * t) * (s * q)) by (nonlinear_arith);
}

pub proof fn lemma_mul_shuffle_b(p: int, q: int, r: int, s: int, t: int)
    ensures
        ((p * q) * r) * (s * t) == ((p * r) * s) * (q * t),
{
    assert(((p * q) * r) * (s * t) == ((p * r) * s) * (q * t)) by (nonlinear_arith);
}

/// Sameness is transitive through a well-formed middle value.
pub proof fn lemma_same_trans(a: RatV, b: RatV, c: RatV)
    requires
        b.wf(),
        a.same(b),
        b.same(c),
    ensures
        a.same(c),
{
    assert(a.n * c.d == c.n * a.d) by (nonlinear_arith)
        requires
            b.d > 0,
            a.n * b.d == b.n * a.d,
            b.n * c.d == c.n * b.d,
    ;
}

/// Addition respects sameness.
pub proof fn lemma_same_add(a: RatV, a2: RatV, b: RatV, b2: RatV)
    requires
        a.same(a2),
        b.same(b2),
    ensures
        rat_add_v(a, b).same(rat_add_v(a2, b2)),
{
    assert((a.n * b.d) * (a2.d * b2.d) == (a.n * a2.d) * (b.d * b2.d)) by (nonlinear_arith);
    assert((a.n * a2.d) * (b.d * b2.d) == (a2.n * a.d) * (b.d * b2.d)) by (nonlinear_arith)
        requires
            a.n * a2.d == a2.n * a.d,
    ;
    assert((a2.n * a.d) * (b.d * b2.d) == (a2.n * b2.d) * (a.d * b.d)) by (nonlinear_arith);
    assert((b.n * a.d) * (a2.d * b2.d) == (b.n * b2.d) * (a.d * a2.d)) by (nonlinear_arith);
    assert((b.n * b2.d) * (a.d * a2.d) == (b2.n * b.d) * (a.d * a2.d)) by (nonlinear_arith)
        requires
            b.n * b2.d == b2.n * b.d,
    ;
    assert((b2.n * b.d) * (a.d * a2.d) == (b2.n * a2.d) * (a.d * b.d)) by (nonlinear_arith);
    assert((a.n * b.d + b.n * a.d) * (a2.d * b2.d) == (a.n * b.d) * (a2.d * b2.d) + (b.n * a.d)
        * (a2.d * b2.d)) by (nonlinear_arith);
    assert((a2.n * b2.d + b2.n * a2.d) * (a.d * b.d) == (a2.n * b2.d) * (a.d * b.d) + (b2.n
        * a2.d) * (a.d * b.d)) by (nonlinear_arith);
}

/// Multiplication respects sameness.
pub proof fn lemma_same_mul(a: RatV, a2: RatV, b: RatV, b2: RatV)
    requires
        a.same(a2),
        b.same(b2),
    ensures
        rat_mul_v(a, b).same(rat_mul_v(a2, b2)),
{
    assert((a.n * b.n) * (a2.d * b2.d) == (a2.n * b2.n) * (a.d * b.d)) by (nonlinear_arith)
        requires
            a.n * a2.d == a2.n * a.d,
            b.n * b2.d == b2.n * b.d,
    ;
}

/// Multiplication distributes over addition, up to sameness.
pub proof fn lemma_mul_dist(a: RatV, b: RatV, c: RatV)
    ensures
        rat_mul_v(rat_add_v(a, b), c).same(rat_add_v(rat_mul_v(a, c), rat_mul_v(b, c))),
{
    assert(((a.n * b.d + b.n * a.d) * c.n) * ((a.d * c.d) * (b.d * c.d)) == ((a.n * b.d) * c.n)
        * ((a.d * c.d) * (b.d * c.d)) + ((b.n * a.d) * c.n) * ((a.d * c.d) * (b.d
        * c.d))) by (nonlinear_arith);
    lemma_mul_shuffle_a(a.n, b.d, c.n, a.d * c.d, b.d * c.d);
    assert((a.d * c.d) * b.d == (a.d * b.d) * c.d) by (nonlinear_arith);
    assert(((a.n * b.d) * c.n) * ((a.d * c.d) * (b.d * c.d)) == (a.n * c.n * (b.d * c.d)) * ((a.d
        * b.d) * c.d));
    lemma_mul_shuffle_b(b.n, a.d, c.n, a.d * c.d, b.d * c.d);
    assert(a.d * (b.d * c.d) == (a.d * b.d) * c.d) by (nonlinear_arith);
    assert(((b.n * a.d) * c.n) * ((a.d * c.d) * (b.d * c.d)) == (b.n * c.n * (a.d * c.d)) * ((a.d
        * b.d) * c.d));
    assert((a.n * c.n * (b.d * c.d) + b.n * c.n * (a.d * c.d)) * ((a.d * b.d) * c.d) == (a.n * c.n
        * (b.d * c.d)) * ((a.d * b.d) * c.d) + (b.n * c.n * (a.d * c.d)) * ((a.d * b.d)
        * c.d)) by (nonlinear_arith);
}

/// Addition keeps well-formedness.
pub proof fn lemma_add_wf(a: RatV, b: RatV)
    requires
        a.wf(),
        b.wf(),
    ensures
        rat_add_v(a, b).wf(),
{
    assert(a.d * b.d > 0) by (nonlinear_arith)
        requires
            a.d > 0,
            b.d > 0,
    ;
}

/// Multiplication keeps well-formedness.
pub proof fn lemma_mul_wf(a: RatV, b: RatV)
    requires
        a.wf(),
        b.wf(),
    ensures
        rat_mul_v(a, b).wf(),
{
    assert(a.d * b.d > 0) by (nonlinear_arith)
        requires
            a.d > 0,
            b.d > 0,
    ;
}

} // verus!
