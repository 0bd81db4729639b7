//! The quadratic extension of the base field: an element is a pair
//! `c0 + c1·u` with `u² = nonresidue`.  Spec-level operations are stated over
//! pairs of integers, each component a polynomial in the inputs reduced
//! modulo the base modulus.

use vstd::prelude::*;
use vstd::arithmetic::div_mod::{
    lemma_mod_twice, lemma_mul_mod_noop_left, lemma_small_mod, lemma_sub_mod_noop,
    lemma_add_mod_noop, lemma_mod_bound, lemma_mul_mod_noop_right,
};
use crate::fp::{fp_add_exec, fp_mul_exec, fp_neg_exec, fp_sub_exec, fp_wf};

verus! {

/// A native (out-of-circuit) extension-field value, in reduced form.
#[derive(Clone, Copy, Debug, PartialEq, Eq, Structural)]
pub struct Fp2Val {
    pub c0: u64,
    pub c1: u64,
}

impl View for Fp2Val {
    type V = (int, int);

    open spec fn view(&self) -> (int, int) {
        (self.c0 as int, self.c1 as int)
    }
}

pub open spec fn f2_wf(p: int, a: (int, int)) -> bool {
    fp_wf(p, a.0) && fp_wf(p, a.1)
}

pub open spec fn f2_zero() -> (int, int) {
    (0, 0)
}

pub open spec fn f2_one() -> (int, int) {
    (1, 0)
}

pub open spec fn f2_add(p: int, a: (int, int), b: (int, int)) -> (int, int) {
    ((a.0 + b.0) % p, (a.1 + b.1) % p)
}

pub open spec fn f2_sub(p: int, a: (int, int), b: (int, int)) -> (int, int) {
    ((a.0 - b.0) % p, (a.1 - b.1) % p)
}

pub open spec fn f2_neg(p: int, a: (int, int)) -> (int, int) {
    ((0 - a.0) % p, (0 - a.1) % p)
}

/// `(a0 + a1·u)(b0 + b1·u)` with `u² = nr`.
pub open spec fn f2_mul(p: int, nr: int, a: (int, int), b: (int, int)) -> (int, int) {
    ((a.0 * b.0 + nr * (a.1 * b.1)) % p, (a.0 * b.1 + a.1 * b.0) % p)
}

/// Multiplication by a base-field scalar.
pub open spec fn f2_mul_fp(p: int, a: (int, int), k: int) -> (int, int) {
    ((a.0 * k) % p, (a.1 * k) % p)
}

/// The least candidate pair, in lexicographic scan order, at or above
/// `(c0, c1)` whose product with `a` is one.
pub open spec fn f2_first_inv_from(p: int, nr: int, a: (int, int), c0: int, c1: int) -> Option<
    (int, int),
>
    decreases p - c0, p - c1,
{
    if c0 < 0 || c1 < 0 || c0 >= p || c1 > p {
        None
    } else if c1 == p {
        f2_first_inv_from(p, nr, a, c0 + 1, 0)
    } else if f2_mul(p, nr, a, (c0, c1)) == f2_one() {
        Some((c0, c1))
    } else {
        f2_first_inv_from(p, nr, a, c0, c1 + 1)
    }
}

/// The multiplicative inverse of `a` in the extension field: the first
/// reduced pair whose product with `a` is one.  When the extension is a field
/// (the nonresidue is a non-square) this is the unique inverse; `None`
/// exactly when no reduced pair works, in particular for `a == 0`.
pub open spec fn f2_inv(p: int, nr: int, a: (int, int)) -> Option<(int, int)> {
    f2_first_inv_from(p, nr, a, 0, 0)
}

pub proof fn lemma_f2_ops_wf(p: int, nr: int, a: (int, int), b: (int, int))
    requires
        2 <= p,
    ensures
        f2_wf(p, f2_add(p, a, b)),
        f2_wf(p, f2_sub(p, a, b)),
        f2_wf(p, f2_neg(p, a)),
        f2_wf(p, f2_mul(p, nr, a, b)),
        f2_wf(p, f2_mul_fp(p, a, b.0)),
{
    lemma_mod_bound(a.0 + b.0, p);
    lemma_mod_bound(a.1 + b.1, p);
    lemma_mod_bound(a.0 - b.0, p);
    lemma_mod_bound(a.1 - b.1, p);
    lemma_mod_bound(0 - a.0, p);
    lemma_mod_bound(0 - a.1, p);
    lemma_mod_bound(a.0 * b.0 + nr * (a.1 * b.1), p);
    lemma_mod_bound(a.0 * b.1 + a.1 * b.0, p);
    lemma_mod_bound(a.0 * b.0, p);
    lemma_mod_bound(a.1 * b.0, p);
}

/// Congruence of products: multiplying by a residue or by any integer of the
/// same class gives the same class.
proof fn lemma_mul_congruent(a: int, b: int, b2: int, p: int)
    requires
        p > 0,
        b % p == b2 % p,
    ensures
        (a * b) % p == (a * b2) % p,
{
    lemma_mul_mod_noop_right(a, b, p);
    lemma_mul_mod_noop_right(a, b2, p);
}

/// Congruence of sums.
proof fn lemma_add_congruent(a: int, a2: int, b: int, b2: int, p: int)
    requires
        p > 0,
        a % p == a2 % p,
        b % p == b2 % p,
    ensures
        (a + b) % p == (a2 + b2) % p,
{
    lemma_add_mod_noop(a, b, p);
    lemma_add_mod_noop(a2, b2, p);
}

/// Subtracting a reduced value commutes with an outer reduction.
proof fn lemma_sub_mod_left(t: int, c: int, p: int)
    requires
        p > 0,
        0 <= c < p,
    ensures
        (t % p - c) % p == (t - c) % p,
{
    lemma_small_mod(c as nat, p as nat);
    lemma_sub_mod_noop(t, c, p);
}

/// Multiplication in the extension field is commutative.
pub proof fn lemma_f2_mul_comm(p: int, nr: int, a: (int, int), b: (int, int))
    requires
        p > 0,
    ensures
        f2_mul(p, nr, a, b) == f2_mul(p, nr, b, a),
{
    assert(a.0 * b.0 + nr * (a.1 * b.1) == b.0 * a.0 + nr * (b.1 * a.1)) by (nonlinear_arith);
    assert(a.0 * b.1 + a.1 * b.0 == b.0 * a.1 + b.1 * a.0) by (nonlinear_arith);
}

/// Multiplication distributes over subtraction of reduced values.
pub proof fn lemma_f2_mul_dist_sub(p: int, nr: int, c: (int, int), x: (int, int), y: (int, int))
    requires
        p > 0,
        f2_wf(p, c),
        f2_wf(p, x),
        f2_wf(p, y),
    ensures
        f2_mul(p, nr, c, f2_sub(p, x, y)) == f2_sub(p, f2_mul(p, nr, c, x), f2_mul(p, nr, c, y)),
{
    let x0m = (x.0 - y.0) % p;
    let x1m = (x.1 - y.1) % p;
    lemma_mod_twice(x.0 - y.0, p);
    lemma_mod_twice(x.1 - y.1, p);
    lemma_mul_mod_noop_right(c.0, x.0 - y.0, p);
    lemma_mul_mod_noop_right(c.1, x.1 - y.1, p);
    lemma_mul_congruent(nr, c.1 * x1m, c.1 * (x.1 - y.1), p);
    lemma_add_congruent(c.0 * x0m, c.0 * (x.0 - y.0), nr * (c.1 * x1m), nr * (c.1 * (x.1 - y.1)), p);
    lemma_sub_mod_noop(c.0 * x.0 + nr * (c.1 * x.1), c.0 * y.0 + nr * (c.1 * y.1), p);
    assert(c.0 * (x.0 - y.0) + nr * (c.1 * (x.1 - y.1)) == (c.0 * x.0 + nr * (c.1 * x.1)) - (c.0
        * y.0 + nr * (c.1 * y.1))) by (nonlinear_arith);
    lemma_mul_congruent(c.1, x0m, x.0 - y.0, p);
    lemma_mul_congruent(c.0, x1m, x.1 - y.1, p);
    lemma_add_congruent(c.0 * x1m, c.0 * (x.1 - y.1), c.1 * x0m, c.1 * (x.0 - y.0), p);
    lemma_sub_mod_noop(c.0 * x.1 + c.1 * x.0, c.0 * y.1 + c.1 * y.0, p);
    assert(c.0 * (x.1 - y.1) + c.1 * (x.0 - y.0) == (c.0 * x.1 + c.1 * x.0) - (c.0 * y.1 + c.1
        * y.0)) by (nonlinear_arith);
}

/// Pulling one subtrahend past another: both orders of subtracting two
/// reduced values reach the same residue.
pub proof fn lemma_f2_sub_swap(p: int, a: (int, int), b: (int, int), c: (int, int))
    requires
        p > 0,
        f2_wf(p, b),
        f2_wf(p, c),
    ensures
        f2_sub(p, f2_sub(p, a, b), c) == f2_sub(p, f2_sub(p, a, c), b),
{
    lemma_sub_mod_left(a.0 - b.0, c.0, p);
    lemma_sub_mod_left(a.0 - c.0, b.0, p);
    lemma_sub_mod_left(a.1 - b.1, c.1, p);
    lemma_sub_mod_left(a.1 - c.1, b.1, p);
}

impl Fp2Val {
    pub open spec fn wf(&self, p: int) -> bool {
        f2_wf(p, self@)
    }

    pub fn zero() -> (r: Fp2Val)
        ensures
            r@ == f2_zero(),
    {
        Fp2Val { c0: 0, c1: 0 }
    }

    pub fn one() -> (r: Fp2Val)
        ensures
            r@ == f2_one(),
    {
        Fp2Val { c0: 1, c1: 0 }
    }

    pub fn add_val(&self, p: u64, o: &Fp2Val) -> (r: Fp2Val)
        requires
            2 <= p,
            self.wf(p as int),
            o.wf(p as int),
        ensures
            r@ == f2_add(p as int, self@, o@),
            r.wf(p as int),
    {
        Fp2Val { c0: fp_add_exec(p, self.c0, o.c0), c1: fp_add_exec(p, self.c1, o.c1) }
    }

    pub fn sub_val(&self, p: u64, o: &Fp2Val) -> (r: Fp2Val)
        requires
            2 <= p,
            self.wf(p as int),
            o.wf(p as int),
        ensures
            r@ == f2_sub(p as int, self@, o@),
            r.wf(p as int),
    {
        Fp2Val { c0: fp_sub_exec(p, self.c0, o.c0), c1: fp_sub_exec(p, self.c1, o.c1) }
    }

    pub fn neg_val(&self, p: u64) -> (r: Fp2Val)
        requires
            2 <= p,
            self.wf(p as int),
        ensures
            r@ == f2_neg(p as int, self@),
            r.wf(p as int),
    {
        Fp2Val { c0: fp_neg_exec(p, self.c0), c1: fp_neg_exec(p, self.c1) }
    }

    pub fn mul_val(&self, p: u64, nr: u64, o: &Fp2Val) -> (r: Fp2Val)
        requires
            2 <= p,
            nr < p,
            self.wf(p as int),
            o.wf(p as int),
        ensures
            r@ == f2_mul(p as int, nr as int, self@, o@),
            r.wf(p as int),
    {
        let ghost pi = p as int;
        let t00 = fp_mul_exec(p, self.c0, o.c0);
        let t11 = fp_mul_exec(p, self.c1, o.c1);
        let nr_t11 = fp_mul_exec(p, nr, t11);
        let c0 = fp_add_exec(p, t00, nr_t11);
        let t01 = fp_mul_exec(p, self.c0, o.c1);
        let t10 = fp_mul_exec(p, self.c1, o.c0);
        let c1 = fp_add_exec(p, t01, t10);
        proof {
            let a0 = self.c0 as int;
            let a1 = self.c1 as int;
            let b0 = o.c0 as int;
            let b1 = o.c1 as int;
            let nri = nr as int;
            // push the inner reductions outward, component 0
            lemma_mul_mod_noop_right(nri, a1 * b1, pi);
            lemma_add_mod_noop(a0 * b0, nri * (a1 * b1), pi);
            assert(c0 as int == ((a0 * b0) % pi + (nri * (a1 * b1)) % pi) % pi);
            // component 1
            lemma_add_mod_noop(a0 * b1, a1 * b0, pi);
        }
        Fp2Val { c0, c1 }
    }

    pub fn mul_fp_val(&self, p: u64, k: u64) -> (r: Fp2Val)
        requires
            2 <= p,
            k < p,
            self.wf(p as int),
        ensures
            r@ == f2_mul_fp(p as int, self@, k as int),
            r.wf(p as int),
    {
        Fp2Val { c0: fp_mul_exec(p, self.c0, k), c1: fp_mul_exec(p, self.c1, k) }
    }

    /// Scans the reduced pairs in lexicographic order for the multiplicative
    /// inverse of `self`.  Exact: it returns precisely `f2_inv`, so `Some`
    /// iff some reduced pair inverts `self`.
    pub fn inverse_val(&self, p: u64, nr: u64) -> (r: Option<Fp2Val>)
        requires
            2 <= p,
            nr < p,
            self.wf(p as int),
        ensures
            match r {
                Some(b) => {
                    &&& b.wf(p as int)
                    &&& f2_mul(p as int, nr as int, self@, b@) == f2_one()
                    &&& f2_inv(p as int, nr as int, self@) == Some(b@)
                },
                None => {
                    &&& f2_inv(p as int, nr as int, self@) is None
                    &&& forall|b: (int, int)|
                        f2_wf(p as int, b) ==> f2_mul(p as int, nr as int, self@, b) != f2_one()
                },
            },
    {
        let ghost pi = p as int;
        let ghost nri = nr as int;
        let mut c0: u64 = 0;
        while c0 < p
            invariant
                2 <= p,
                nr < p,
                self.wf(pi),
                pi == p as int,
                nri == nr as int,
                c0 <= p,
                f2_inv(pi, nri, self@) == f2_first_inv_from(pi, nri, self@, c0 as int, 0),
                forall|b: (int, int)|
                    f2_wf(pi, b) && b.0 < c0 ==> f2_mul(pi, nri, self@, b) != f2_one(),
            decreases p - c0,
        {
            let mut c1: u64 = 0;
            while c1 < p
                invariant
                    2 <= p,
                    nr < p,
                    self.wf(pi),
                    pi == p as int,
                    nri == nr as int,
                    c0 < p,
                    c1 <= p,
                    f2_inv(pi, nri, self@) == f2_first_inv_from(
                        pi,
                        nri,
                        self@,
                        c0 as int,
                        c1 as int,
                    ),
                    forall|b: (int, int)|
                        f2_wf(pi, b) && (b.0 < c0 || (b.0 == c0 && b.1 < c1)) ==> f2_mul(
                            pi,
                            nri,
                            self@,
                            b,
                        ) != f2_one(),
                decreases p - c1,
            {
                let cand = Fp2Val { c0, c1 };
                let prod = self.mul_val(p, nr, &cand);
                if prod.c0 == 1 && prod.c1 == 0 {
                    return Some(cand);
                }
                c1 = c1 + 1;
            }
            c0 = c0 + 1;
        }
        None
    }
}

} // verus!
