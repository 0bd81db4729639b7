//! The constraint-system model and the circuit-side field gadgets.
//!
//! Circuit construction is strictly sequential: every gadget operation
//! appends to one shared, append-only constraint system.  The model tracks
//! the three quantities the surrounding proof system depends on — private
//! witness variables, public input variables and constraints — and each
//! gadget carries the value the current assignment gives it.  Linear
//! operations (addition, subtraction, negation, doubling, multiplication by a
//! protocol constant) cost nothing: they only extend linear combinations.
//! Every nonlinear relation — a multiplication, a squaring, an inversion —
//! allocates exactly one fresh witness variable for its result and exactly
//! one constraint binding that variable; leaving one out would be a
//! soundness hole, not merely a wrong answer.

use vstd::prelude::*;
use crate::fp2::{f2_add, f2_inv, f2_mul, f2_mul_fp, f2_neg, f2_one, f2_sub, f2_wf, Fp2Val};
use crate::SynthesisError;

verus! {

/// The shared, append-only constraint system: the circuit's size so far.
#[derive(Clone, Copy, Debug, PartialEq, Eq, Structural)]
pub struct ConstraintSystem {
    pub num_witness_vars: u64,
    pub num_input_vars: u64,
    pub num_constraints: u64,
}

/// The circuit grew by `dv` witness variables and `dc` constraints, and the
/// public input did not change.
pub open spec fn cs_grew(pre: ConstraintSystem, post: ConstraintSystem, dv: int, dc: int) -> bool {
    &&& post.num_witness_vars == pre.num_witness_vars + dv
    &&& post.num_input_vars == pre.num_input_vars
    &&& post.num_constraints == pre.num_constraints + dc
}

impl ConstraintSystem {
    pub fn new() -> (r: ConstraintSystem)
        ensures
            r.num_witness_vars == 0,
            r.num_input_vars == 0,
            r.num_constraints == 0,
    {
        ConstraintSystem { num_witness_vars: 0, num_input_vars: 0, num_constraints: 0 }
    }

    /// Room for `n` more witness variables and `n` more constraints.
    pub open spec fn room_for(&self, n: int) -> bool {
        &&& self.num_witness_vars + n <= u64::MAX
        &&& self.num_constraints + n <= u64::MAX
    }

    /// Record one nonlinear relation: the fresh variable holding its result
    /// and the single constraint that binds it.
    fn record_nonlinear(&mut self)
        requires
            old(self).room_for(1),
        ensures
            cs_grew(*old(self), *final(self), 1, 1),
    {
        self.num_witness_vars = self.num_witness_vars + 1;
        self.num_constraints = self.num_constraints + 1;
    }

    /// Record a gadget that allocates `dv` fresh witness variables bound by
    /// `dc` constraints.
    pub(crate) fn record_growth(&mut self, dv: u64, dc: u64)
        requires
            old(self).num_witness_vars + dv <= u64::MAX,
            old(self).num_constraints + dc <= u64::MAX,
        ensures
            cs_grew(*old(self), *final(self), dv as int, dc as int),
    {
        self.num_witness_vars = self.num_witness_vars + dv;
        self.num_constraints = self.num_constraints + dc;
    }
}

/// A circuit-side element of the base field, carrying the value the current
/// assignment gives it.
#[derive(Clone, Copy, Debug, PartialEq, Eq, Structural)]
pub struct FpGadget {
    pub value: u64,
}

impl View for FpGadget {
    type V = int;

    open spec fn view(&self) -> int {
        self.value as int
    }
}

impl FpGadget {
    pub open spec fn wf(&self, p: int) -> bool {
        0 <= self@ < p
    }

    /// Bakes a protocol constant into the circuit description itself: no
    /// fresh variable of any kind, no constraint.
    pub fn alloc_constant(cs: &mut ConstraintSystem, p: u64, v: u64) -> (r: FpGadget)
        requires
            2 <= p,
            v < p,
        ensures
            r@ == v as int,
            r.wf(p as int),
            *final(cs) == *old(cs),
    {
        FpGadget { value: v }
    }
}

/// A circuit-side element of the quadratic extension field, carrying the
/// value the current assignment gives it.
#[derive(Clone, Copy, Debug, PartialEq, Eq, Structural)]
pub struct Fp2Gadget {
    pub c0: u64,
    pub c1: u64,
}

impl View for Fp2Gadget {
    type V = (int, int);

    open spec fn view(&self) -> (int, int) {
        (self.c0 as int, self.c1 as int)
    }
}

impl Fp2Gadget {
    pub open spec fn wf(&self, p: int) -> bool {
        f2_wf(p, self@)
    }

    pub fn value(&self) -> (r: Fp2Val)
        ensures
            r@ == self@,
    {
        Fp2Val { c0: self.c0, c1: self.c1 }
    }

    fn from_val(v: Fp2Val) -> (r: Fp2Gadget)
        ensures
            r@ == v@,
    {
        Fp2Gadget { c0: v.c0, c1: v.c1 }
    }

    /// Bakes a protocol constant into the circuit description itself: no
    /// fresh variable of any kind, no constraint.
    pub fn alloc_constant(cs: &mut ConstraintSystem, p: u64, v: &Fp2Val) -> (r: Fp2Gadget)
        requires
            2 <= p,
            v.wf(p as int),
        ensures
            r@ == v@,
            r.wf(p as int),
            *final(cs) == *old(cs),
    {
        Fp2Gadget { c0: v.c0, c1: v.c1 }
    }

    /// Linear: extends linear combinations only.
    pub fn add(&self, cs: &mut ConstraintSystem, p: u64, o: &Fp2Gadget) -> (r: Fp2Gadget)
        requires
            2 <= p,
            self.wf(p as int),
            o.wf(p as int),
        ensures
            r@ == f2_add(p as int, self@, o@),
            r.wf(p as int),
            *final(cs) == *old(cs),
    {
        Fp2Gadget::from_val(self.value().add_val(p, &o.value()))
    }

    /// Linear: extends linear combinations only.
    pub fn sub(&self, cs: &mut ConstraintSystem, p: u64, o: &Fp2Gadget) -> (r: Fp2Gadget)
        requires
            2 <= p,
            self.wf(p as int),
            o.wf(p as int),
        ensures
            r@ == f2_sub(p as int, self@, o@),
            r.wf(p as int),
            *final(cs) == *old(cs),
    {
        Fp2Gadget::from_val(self.value().sub_val(p, &o.value()))
    }

    /// Linear: doubling is an addition of linear combinations.
    pub fn double(&self, cs: &mut ConstraintSystem, p: u64) -> (r: Fp2Gadget)
        requires
            2 <= p,
            self.wf(p as int),
        ensures
            r@ == f2_add(p as int, self@, self@),
            r.wf(p as int),
            *final(cs) == *old(cs),
    {
        Fp2Gadget::from_val(self.value().add_val(p, &self.value()))
    }

    /// Linear: negation only rescales a linear combination.
    pub fn negate(&self, cs: &mut ConstraintSystem, p: u64) -> (r: Fp2Gadget)
        requires
            2 <= p,
            self.wf(p as int),
        ensures
            r@ == f2_neg(p as int, self@),
            r.wf(p as int),
            *final(cs) == *old(cs),
    {
        Fp2Gadget::from_val(self.value().neg_val(p))
    }

    /// Linear: the scalar is a protocol constant, so the product is still a
    /// linear combination.
    pub fn mul_by_fp_constant(&self, cs: &mut ConstraintSystem, p: u64, k: u64) -> (r: Fp2Gadget)
        requires
            2 <= p,
            k < p,
            self.wf(p as int),
        ensures
            r@ == f2_mul_fp(p as int, self@, k as int),
            r.wf(p as int),
            *final(cs) == *old(cs),
    {
        Fp2Gadget::from_val(self.value().mul_fp_val(p, k))
    }

    /// Nonlinear: one fresh witness variable for the product and the one
    /// constraint `self * o = r`.
    pub fn mul(&self, cs: &mut ConstraintSystem, p: u64, nr: u64, o: &Fp2Gadget) -> (r: Fp2Gadget)
        requires
            2 <= p,
            nr < p,
            self.wf(p as int),
            o.wf(p as int),
            old(cs).room_for(1),
        ensures
            r@ == f2_mul(p as int, nr as int, self@, o@),
            r.wf(p as int),
            cs_grew(*old(cs), *final(cs), 1, 1),
    {
        cs.record_nonlinear();
        Fp2Gadget::from_val(self.value().mul_val(p, nr, &o.value()))
    }

    /// Nonlinear: one fresh witness variable for the square and the one
    /// constraint `self * self = r`.
    pub fn square(&self, cs: &mut ConstraintSystem, p: u64, nr: u64) -> (r: Fp2Gadget)
        requires
            2 <= p,
            nr < p,
            self.wf(p as int),
            old(cs).room_for(1),
        ensures
            r@ == f2_mul(p as int, nr as int, self@, self@),
            r.wf(p as int),
            cs_grew(*old(cs), *final(cs), 1, 1),
    {
        cs.record_nonlinear();
        Fp2Gadget::from_val(self.value().mul_val(p, nr, &self.value()))
    }

    /// Nonlinear: one fresh witness variable for the inverse and the one
    /// constraint `self * r = 1`.  Fails, leaving the circuit unchanged,
    /// exactly when `self` has no multiplicative inverse — in particular on
    /// zero.
    pub fn inverse(&self, cs: &mut ConstraintSystem, p: u64, nr: u64) -> (r: Result<
        Fp2Gadget,
        SynthesisError,
    >)
        requires
            2 <= p,
            nr < p,
            self.wf(p as int),
            old(cs).room_for(1),
        ensures
            match r {
                Ok(g) => {
                    &&& f2_inv(p as int, nr as int, self@) == Some(g@)
                    &&& f2_mul(p as int, nr as int, self@, g@) == f2_one()
                    &&& g.wf(p as int)
                    &&& cs_grew(*old(cs), *final(cs), 1, 1)
                },
                Err(e) => {
                    &&& f2_inv(p as int, nr as int, self@) is None
                    &&& e == SynthesisError::NonInvertible
                    &&& *final(cs) == *old(cs)
                },
            },
    {
        match self.value().inverse_val(p, nr) {
            Some(v) => {
                cs.record_nonlinear();
                Ok(Fp2Gadget::from_val(v))
            },
            None => Err(SynthesisError::NonInvertible),
        }
    }
}

} // verus!
