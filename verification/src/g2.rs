//! Prepared G2 points: the Miller-loop precomputation.
//!
//! Preparing a G2 point walks the bits of the curve's fixed loop scalar below
//! the top bit, most significant first; every bit runs a doubling step on an
//! accumulator point, and every set bit additionally runs an addition step
//! against the input point.  Each step advances the accumulator and emits one
//! pair of line coefficients; the ordered sequence of those pairs is the
//! prepared point, consumed downstream by the Miller-loop evaluator.  The
//! step pattern is a function of the loop scalar alone — public curve data,
//! never witness data — so the circuit shape is identical for every input.

use vstd::prelude::*;
use crate::bytes::{f2_bytes, g2_coeffs_bytes};
use crate::cs::{cs_grew, ConstraintSystem, Fp2Gadget};
use crate::fp::{fp_inv, fp_inv_exec};
use crate::fp2::{f2_add, f2_inv, f2_mul, f2_mul_fp, f2_neg, f2_sub, f2_zero, Fp2Val};
use crate::{CurveParams, SynthesisError, TwistType};

verus! {

/// The twist tag decides only the order in which a step's two coefficients
/// are stored, never their values.
pub open spec fn order_coeffs(twist: TwistType, e: (int, int), f: (int, int)) -> (
    (int, int),
    (int, int),
) {
    match twist {
        TwistType::M => (e, f),
        TwistType::D => (f, e),
    }
}

/// One doubling step on accumulator `(x, y)`: the tangent slope
/// `c = (1/y)·(3/2)·x²`, the advanced accumulator, and the two emitted
/// coefficients, as `(x', y', e, f)`.  `None` exactly when `y` has no
/// inverse.
pub open spec fn dbl_step(p: int, nr: int, two_inv: int, x: (int, int), y: (int, int)) -> Option<
    ((int, int), (int, int), (int, int), (int, int)),
> {
    match f2_inv(p, nr, y) {
        None => None,
        Some(a) => {
            let sq = f2_mul(p, nr, x, x);
            let b = f2_add(p, f2_mul_fp(p, sq, two_inv), sq);
            let c = f2_mul(p, nr, a, b);
            let d = f2_add(p, x, x);
            let x3 = f2_sub(p, f2_mul(p, nr, c, c), d);
            let e = f2_sub(p, f2_mul(p, nr, c, x), y);
            let y3 = f2_sub(p, e, f2_mul(p, nr, c, x3));
            let f = f2_neg(p, c);
            Some((x3, y3, e, f))
        },
    }
}

/// One addition step between accumulator `(rx, ry)` and the fixed input
/// point `(qx, qy)`: the secant slope, the advanced accumulator, and the two
/// emitted coefficients, as `(x', y', g, f)`.  `None` exactly when the
/// abscissae coincide, so the secant has no slope.
pub open spec fn add_step(
    p: int,
    nr: int,
    rx: (int, int),
    ry: (int, int),
    qx: (int, int),
    qy: (int, int),
) -> Option<((int, int), (int, int), (int, int), (int, int))> {
    match f2_inv(p, nr, f2_sub(p, qx, rx)) {
        None => None,
        Some(a) => {
            let b = f2_sub(p, qy, ry);
            let c = f2_mul(p, nr, a, b);
            let d = f2_add(p, rx, qx);
            let x3 = f2_sub(p, f2_mul(p, nr, c, c), d);
            let e = f2_mul(p, nr, f2_sub(p, rx, x3), c);
            let y3 = f2_sub(p, e, ry);
            let g = f2_sub(p, f2_mul(p, nr, c, rx), ry);
            let f = f2_neg(p, c);
            Some((x3, y3, g, f))
        },
    }
}

/// The coefficient trace of the double-and-add walk over `bits`, starting
/// from accumulator `(rx, ry)` with fixed input `(qx, qy)`: one doubling
/// entry per bit, one additional addition entry per set bit.  `None` exactly
/// when some step's inversion fails.
pub open spec fn miller_trace(
    p: int,
    nr: int,
    two_inv: int,
    twist: TwistType,
    qx: (int, int),
    qy: (int, int),
    rx: (int, int),
    ry: (int, int),
    bits: Seq<bool>,
) -> Option<Seq<((int, int), (int, int))>>
    decreases bits.len(),
{
    if bits.len() == 0 {
        Some(Seq::empty())
    } else {
        match dbl_step(p, nr, two_inv, rx, ry) {
            None => None,
            Some(d) => {
                let dc = order_coeffs(twist, d.2, d.3);
                if !bits[0] {
                    match miller_trace(p, nr, two_inv, twist, qx, qy, d.0, d.1, bits.skip(1)) {
                        None => None,
                        Some(rest) => Some(seq![dc] + rest),
                    }
                } else {
                    match add_step(p, nr, d.0, d.1, qx, qy) {
                        None => None,
                        Some(aa) => {
                            let ac = order_coeffs(twist, aa.2, aa.3);
                            match miller_trace(
                                p,
                                nr,
                                two_inv,
                                twist,
                                qx,
                                qy,
                                aa.0,
                                aa.1,
                                bits.skip(1),
                            ) {
                                None => None,
                                Some(rest) => Some(seq![dc, ac] + rest),
                            }
                        },
                    }
                }
            },
        }
    }
}

/// What preparing the point `(qx, qy)` yields: first the precomputed inverse
/// of two in the base field, then the rejection of the identity sentinel,
/// then the trace over the loop-scalar bits below the top bit.  `None`
/// exactly when preparation fails.
pub open spec fn prepare_spec(
    p: int,
    nr: int,
    twist: TwistType,
    bits: Seq<bool>,
    qx: (int, int),
    qy: (int, int),
) -> Option<Seq<((int, int), (int, int))>> {
    match fp_inv(p, 2int % p) {
        None => None,
        Some(ti) => if (qx, qy) == (f2_zero(), f2_zero()) {
            None
        } else {
            miller_trace(p, nr, ti, twist, qx, qy, qx, qy, bits.skip(1))
        },
    }
}

/// The number of coefficient entries the walk over `bits` emits: one per
/// bit, two per set bit.  A function of the public loop scalar alone.
pub open spec fn trace_len(bits: Seq<bool>) -> int
    decreases bits.len(),
{
    if bits.len() == 0 {
        0
    } else {
        (if bits[0] {
            2int
        } else {
            1int
        }) + trace_len(bits.skip(1))
    }
}

/// The circuit growth of the walk over `bits`: a doubling step records six
/// nonlinear relations, an addition step five.  A function of the public
/// loop scalar alone: the circuit shape never depends on the point.
pub open spec fn steps_cost(bits: Seq<bool>) -> int
    decreases bits.len(),
{
    if bits.len() == 0 {
        0
    } else {
        (if bits[0] {
            11int
        } else {
            6int
        }) + steps_cost(bits.skip(1))
    }
}

pub proof fn lemma_steps_cost_nonneg(bits: Seq<bool>)
    ensures
        steps_cost(bits) >= 0,
        trace_len(bits) >= 0,
    decreases bits.len(),
{
    if bits.len() > 0 {
        lemma_steps_cost_nonneg(bits.skip(1));
    }
}

/// Prefixing a partial coefficient sequence onto an optional rest.
pub open spec fn trace_glue(
    prefix: Seq<((int, int), (int, int))>,
    suffix: Option<Seq<((int, int), (int, int))>>,
) -> Option<Seq<((int, int), (int, int))>> {
    match suffix {
        None => None,
        Some(rest) => Some(prefix + rest),
    }
}

/// The mathematical content of a gadget coefficient sequence.
pub open spec fn coeffs_view(s: Seq<(Fp2Gadget, Fp2Gadget)>) -> Seq<((int, int), (int, int))> {
    s.map_values(|pr: (Fp2Gadget, Fp2Gadget)| (pr.0@, pr.1@))
}

/// The mathematical content of a native projective coefficient sequence.
pub open spec fn triples_view(s: Seq<(Fp2Val, Fp2Val, Fp2Val)>) -> Seq<
    ((int, int), (int, int), (int, int)),
> {
    s.map_values(|tr: (Fp2Val, Fp2Val, Fp2Val)| (tr.0@, tr.1@, tr.2@))
}

/// Normalizing a projective coefficient sequence: every triple `(x, y, z)`
/// becomes `(x·z⁻¹, y·z⁻¹)`.  `None` exactly when some `z` has no inverse.
pub open spec fn normalize_coeffs(
    p: int,
    nr: int,
    s: Seq<((int, int), (int, int), (int, int))>,
) -> Option<Seq<((int, int), (int, int))>>
    decreases s.len(),
{
    if s.len() == 0 {
        Some(Seq::empty())
    } else {
        match f2_inv(p, nr, s[0].2) {
            None => None,
            Some(zi) => match normalize_coeffs(p, nr, s.skip(1)) {
                None => None,
                Some(rest) => Some(
                    seq![(f2_mul(p, nr, s[0].0, zi), f2_mul(p, nr, s[0].1, zi))] + rest,
                ),
            },
        }
    }
}

/// An affine G2 point gadget: a pair of extension-field gadgets.
/// Construction enforces no curve membership; a collaborator that needs
/// "this point lies on the curve" must constrain it separately.
#[derive(Clone, Copy, Debug, PartialEq, Eq, Structural)]
pub struct G2Gadget {
    pub x: Fp2Gadget,
    pub y: Fp2Gadget,
}

impl G2Gadget {
    pub open spec fn wf(&self, p: int) -> bool {
        self.x.wf(p) && self.y.wf(p)
    }

    /// The identity sentinel `(0, 0)`, baked in as a constant: no fresh
    /// variable, no constraint.
    pub fn zero(cs: &mut ConstraintSystem, p: u64) -> (r: G2Gadget)
        requires
            2 <= p,
        ensures
            r.x@ == f2_zero(),
            r.y@ == f2_zero(),
            r.wf(p as int),
            *final(cs) == *old(cs),
    {
        let z = Fp2Val::zero();
        G2Gadget {
            x: Fp2Gadget::alloc_constant(cs, p, &z),
            y: Fp2Gadget::alloc_constant(cs, p, &z),
        }
    }

    /// Constrains the two points to differ, allocating the inequality
    /// witness and its single constraint.  Fails, leaving the circuit
    /// unchanged, exactly when the current assignment gives both points the
    /// same value — the constraint would be unsatisfiable.
    pub fn enforce_not_equal(&self, cs: &mut ConstraintSystem, p: u64, other: &G2Gadget) -> (r:
        Result<(), SynthesisError>)
        requires
            2 <= p,
            old(cs).room_for(1),
        ensures
            match r {
                Ok(_) => {
                    &&& (self.x@, self.y@) != (other.x@, other.y@)
                    &&& cs_grew(*old(cs), *final(cs), 1, 1)
                },
                Err(e) => {
                    &&& (self.x@, self.y@) == (other.x@, other.y@)
                    &&& e == SynthesisError::Unsatisfiable
                    &&& *final(cs) == *old(cs)
                },
            },
    {
        if self.x.c0 == other.x.c0 && self.x.c1 == other.x.c1 && self.y.c0 == other.y.c0
            && self.y.c1 == other.y.c1 {
            Err(SynthesisError::Unsatisfiable)
        } else {
            cs.record_growth(1, 1);
            Ok(())
        }
    }
}

/// A native (out-of-circuit) prepared G2 point: the projective line
/// coefficients the native Miller loop consumes, as `(x, y, z)` triples.
#[derive(Clone, Debug, PartialEq, Eq)]
pub struct G2Prepared {
    pub ell_coeffs: Vec<(Fp2Val, Fp2Val, Fp2Val)>,
}

impl G2Prepared {
    pub open spec fn wf(&self, p: int) -> bool {
        forall|i: int|
            0 <= i < self.ell_coeffs@.len() ==> {
                &&& (#[trigger] self.ell_coeffs@[i]).0.wf(p)
                &&& self.ell_coeffs@[i].1.wf(p)
                &&& self.ell_coeffs@[i].2.wf(p)
            }
    }
}

/// The circuit representation of a prepared G2 point: the ordered, read-only
/// sequence of line-coefficient pairs, write-once derived data.
#[derive(Clone, Debug, PartialEq, Eq)]
pub struct G2PreparedGadget {
    pub ell_coeffs: Vec<(Fp2Gadget, Fp2Gadget)>,
}

impl G2PreparedGadget {
    pub open spec fn wf(&self, p: int) -> bool {
        forall|i: int|
            0 <= i < self.ell_coeffs@.len() ==> {
                &&& (#[trigger] self.ell_coeffs@[i]).0.wf(p)
                &&& self.ell_coeffs@[i].1.wf(p)
            }
    }

    /// One doubling step: advances the accumulator to the curve double and
    /// emits the step's two line coefficients, ordered by the twist tag.
    /// Records exactly six nonlinear relations.  Fails, leaving circuit and
    /// accumulator unchanged, exactly when the accumulator's ordinate has no
    /// inverse.
    pub fn double(
        cs: &mut ConstraintSystem,
        pp: &CurveParams,
        r: &mut G2Gadget,
        two_inv: u64,
    ) -> (res: Result<(Fp2Gadget, Fp2Gadget), SynthesisError>)
        requires
            pp.wf(),
            old(r).wf(pp.modulus as int),
            two_inv < pp.modulus,
            old(cs).room_for(6),
        ensures
            match res {
                Ok(coeffs) => ({
                    let st = dbl_step(
                        pp.modulus as int,
                        pp.nonresidue as int,
                        two_inv as int,
                        old(r).x@,
                        old(r).y@,
                    );
                    &&& st is Some
                    &&& final(r).x@ == (st->0).0
                    &&& final(r).y@ == (st->0).1
                    &&& (coeffs.0@, coeffs.1@) == order_coeffs(pp.twist_type, (st->0).2, (st->0).3)
                    &&& final(r).wf(pp.modulus as int)
                    &&& coeffs.0.wf(pp.modulus as int)
                    &&& coeffs.1.wf(pp.modulus as int)
                    &&& cs_grew(*old(cs), *final(cs), 6, 6)
                }),
                Err(e) => ({
                    &&& dbl_step(
                        pp.modulus as int,
                        pp.nonresidue as int,
                        two_inv as int,
                        old(r).x@,
                        old(r).y@,
                    ) is None
                    &&& e == SynthesisError::NonInvertible
                    &&& *final(r) == *old(r)
                    &&& *final(cs) == *old(cs)
                }),
            },
    {
        let p = pp.modulus;
        let nr = pp.nonresidue;
        let a = match r.y.inverse(cs, p, nr) {
            Ok(a) => a,
            Err(e) => {
                return Err(e);
            },
        };
        let sq = r.x.square(cs, p, nr);
        let b_scaled = sq.mul_by_fp_constant(cs, p, two_inv);
        let b = b_scaled.add(cs, p, &sq);
        let c = a.mul(cs, p, nr, &b);
        let d = r.x.double(cs, p);
        let c_sq = c.square(cs, p, nr);
        let x3 = c_sq.sub(cs, p, &d);
        let c_x = c.mul(cs, p, nr, &r.x);
        let e = c_x.sub(cs, p, &r.y);
        let c_x3 = c.mul(cs, p, nr, &x3);
        let y3 = e.sub(cs, p, &c_x3);
        let f = c.negate(cs, p);
        r.x = x3;
        r.y = y3;
        match pp.twist_type {
            TwistType::M => Ok((e, f)),
            TwistType::D => Ok((f, e)),
        }
    }

    /// One addition step between the accumulator and the fixed input point:
    /// advances the accumulator to their curve sum and emits the step's two
    /// line coefficients, ordered by the twist tag.  Records exactly five
    /// nonlinear relations.  Fails, leaving circuit and accumulator
    /// unchanged, exactly when the two abscissae coincide.
    pub fn add(
        cs: &mut ConstraintSystem,
        pp: &CurveParams,
        r: &mut G2Gadget,
        q: &G2Gadget,
    ) -> (res: Result<(Fp2Gadget, Fp2Gadget), SynthesisError>)
        requires
            pp.wf(),
            old(r).wf(pp.modulus as int),
            q.wf(pp.modulus as int),
            old(cs).room_for(5),
        ensures
            match res {
                Ok(coeffs) => ({
                    let st = add_step(
                        pp.modulus as int,
                        pp.nonresidue as int,
                        old(r).x@,
                        old(r).y@,
                        q.x@,
                        q.y@,
                    );
                    &&& st is Some
                    &&& final(r).x@ == (st->0).0
                    &&& final(r).y@ == (st->0).1
                    &&& (coeffs.0@, coeffs.1@) == order_coeffs(pp.twist_type, (st->0).2, (st->0).3)
                    &&& final(r).wf(pp.modulus as int)
                    &&& coeffs.0.wf(pp.modulus as int)
                    &&& coeffs.1.wf(pp.modulus as int)
                    &&& cs_grew(*old(cs), *final(cs), 5, 5)
                }),
                Err(e) => ({
                    &&& add_step(
                        pp.modulus as int,
                        pp.nonresidue as int,
                        old(r).x@,
                        old(r).y@,
                        q.x@,
                        q.y@,
                    ) is None
                    &&& e == SynthesisError::NonInvertible
                    &&& *final(r) == *old(r)
                    &&& *final(cs) == *old(cs)
                }),
            },
    {
        let p = pp.modulus;
        let nr = pp.nonresidue;
        let diff = q.x.sub(cs, p, &r.x);
        let a = match diff.inverse(cs, p, nr) {
            Ok(a) => a,
            Err(e) => {
                return Err(e);
            },
        };
        let b = q.y.sub(cs, p, &r.y);
        let c = a.mul(cs, p, nr, &b);
        let d = r.x.add(cs, p, &q.x);
        let c_sq = c.square(cs, p, nr);
        let x3 = c_sq.sub(cs, p, &d);
        let rx_less_x3 = r.x.sub(cs, p, &x3);
        let e = rx_less_x3.mul(cs, p, nr, &c);
        let y3 = e.sub(cs, p, &r.y);
        let c_rx = c.mul(cs, p, nr, &r.x);
        let g = c_rx.sub(cs, p, &r.y);
        let f = c.negate(cs, p);
        r.x = x3;
        r.y = y3;
        match pp.twist_type {
            TwistType::M => Ok((g, f)),
            TwistType::D => Ok((f, g)),
        }
    }

    /// Prepares the point `q` for the pairing: precomputes the constant
    /// inverse of two, enforces `q` is not the identity sentinel, then walks
    /// the loop-scalar bits below the top bit, doubling on every bit and
    /// additionally adding `q` on every set bit, collecting the emitted
    /// coefficient pairs in order.  The result is exactly `prepare_spec`,
    /// and the circuit grows by a function of the loop scalar alone.
    pub fn from_affine(cs: &mut ConstraintSystem, pp: &CurveParams, q: &G2Gadget) -> (res: Result<
        G2PreparedGadget,
        SynthesisError,
    >)
        requires
            pp.wf(),
            q.wf(pp.modulus as int),
            old(cs).room_for(1 + steps_cost(pp.loop_bits@.skip(1))),
        ensures
            match res {
                Ok(g) => {
                    &&& prepare_spec(
                        pp.modulus as int,
                        pp.nonresidue as int,
                        pp.twist_type,
                        pp.loop_bits@,
                        q.x@,
                        q.y@,
                    ) == Some(coeffs_view(g.ell_coeffs@))
                    &&& g.wf(pp.modulus as int)
                    &&& cs_grew(
                        *old(cs),
                        *final(cs),
                        1 + steps_cost(pp.loop_bits@.skip(1)),
                        1 + steps_cost(pp.loop_bits@.skip(1)),
                    )
                },
                Err(e) => {
                    &&& prepare_spec(
                        pp.modulus as int,
                        pp.nonresidue as int,
                        pp.twist_type,
                        pp.loop_bits@,
                        q.x@,
                        q.y@,
                    ) is None
                    &&& e == (if fp_inv(pp.modulus as int, 2int % pp.modulus as int) is Some && (
                        q.x@,
                        q.y@,
                    ) == (f2_zero(), f2_zero()) {
                        SynthesisError::Unsatisfiable
                    } else {
                        SynthesisError::NonInvertible
                    })
                },
            },
    {
        let p = pp.modulus;
        let nr = pp.nonresidue;
        let ghost pi = p as int;
        let ghost nri = nr as int;
        let ghost bits = pp.loop_bits@;
        let two_red: u64 = 2 % p;
        let two_inv = match fp_inv_exec(p, two_red) {
            Some(t) => t,
            None => {
                return Err(SynthesisError::NonInvertible);
            },
        };
        proof {
            lemma_steps_cost_nonneg(bits.skip(1));
        }
        let zero = G2Gadget::zero(cs, p);
        match q.enforce_not_equal(cs, p, &zero) {
            Ok(_) => (),
            Err(_) => {
                return Err(SynthesisError::Unsatisfiable);
            },
        }
        let ghost cs_start = *cs;
        let ghost ti = two_inv as int;
        let ghost tw = pp.twist_type;
        let mut ell_coeffs: Vec<(Fp2Gadget, Fp2Gadget)> = Vec::new();
        let mut r = G2Gadget { x: q.x, y: q.y };
        proof {
            assert(coeffs_view(ell_coeffs@) =~= Seq::<((int, int), (int, int))>::empty());
            if miller_trace(pi, nri, ti, tw, q.x@, q.y@, q.x@, q.y@, bits.skip(1)) is Some {
                let rest = miller_trace(pi, nri, ti, tw, q.x@, q.y@, q.x@, q.y@, bits.skip(1))->0;
                assert(Seq::<((int, int), (int, int))>::empty() + rest =~= rest);
            }
        }
        let mut j: usize = 1;
        while j < pp.loop_bits.len()
            invariant
                pp.wf(),
                pi == pp.modulus as int,
                nri == pp.nonresidue as int,
                p == pp.modulus,
                nr == pp.nonresidue,
                tw == pp.twist_type,
                bits == pp.loop_bits@,
                two_inv < p,
                ti == two_inv as int,
                fp_inv(pi, 2int % pi) == Some(ti),
                (q.x@, q.y@) != (f2_zero(), f2_zero()),
                cs_grew(*old(cs), cs_start, 1, 1),
                q.wf(pi),
                r.wf(pi),
                1 <= j <= bits.len(),
                ell_coeffs@.len() <= 2 * j,
                forall|i: int|
                    0 <= i < ell_coeffs@.len() ==> {
                        &&& (#[trigger] ell_coeffs@[i]).0.wf(pi)
                        &&& ell_coeffs@[i].1.wf(pi)
                    },
                cs.num_input_vars == cs_start.num_input_vars,
                cs.num_witness_vars + steps_cost(bits.skip(j as int)) == cs_start.num_witness_vars
                    + steps_cost(bits.skip(1)),
                cs.num_constraints + steps_cost(bits.skip(j as int)) == cs_start.num_constraints
                    + steps_cost(bits.skip(1)),
                cs.num_witness_vars + steps_cost(bits.skip(j as int)) <= u64::MAX,
                cs.num_constraints + steps_cost(bits.skip(j as int)) <= u64::MAX,
                miller_trace(pi, nri, ti, tw, q.x@, q.y@, q.x@, q.y@, bits.skip(1)) == trace_glue(
                    coeffs_view(ell_coeffs@),
                    miller_trace(pi, nri, ti, tw, q.x@, q.y@, r.x@, r.y@, bits.skip(j as int)),
                ),
            decreases bits.len() - j,
        {
            let ghost pre_suffix = bits.skip(j as int);
            let ghost post_suffix = bits.skip(j as int + 1);
            proof {
                assert(pre_suffix.len() == bits.len() - j);
                assert(pre_suffix[0] == bits[j as int]);
                assert(pre_suffix.skip(1) =~= post_suffix);
                lemma_steps_cost_nonneg(post_suffix);
            }
            let bit = pp.loop_bits[j];
            let ghost r_pre = r;
            let ghost ell_pre = ell_coeffs@;
            let dc = match Self::double(cs, pp, &mut r, two_inv) {
                Ok(c) => c,
                Err(e) => {
                    proof {
                        assert(miller_trace(pi, nri, ti, tw, q.x@, q.y@, r_pre.x@, r_pre.y@,
                            pre_suffix) is None);
                    }
                    return Err(e);
                },
            };
            ell_coeffs.push(dc);
            proof {
                assert(coeffs_view(ell_pre.push(dc)) =~= coeffs_view(ell_pre) + seq![
                    (dc.0@, dc.1@),
                ]);
            }
            if bit {
                let ghost r_mid = r;
                let ghost ell_mid = ell_coeffs@;
                let ac = match Self::add(cs, pp, &mut r, q) {
                    Ok(c) => c,
                    Err(e) => {
                        proof {
                            assert(miller_trace(pi, nri, ti, tw, q.x@, q.y@, r_pre.x@, r_pre.y@,
                                pre_suffix) is None);
                        }
                        return Err(e);
                    },
                };
                ell_coeffs.push(ac);
                proof {
                    assert(coeffs_view(ell_mid.push(ac)) =~= coeffs_view(ell_mid) + seq![
                        (ac.0@, ac.1@),
                    ]);
                    let d = dbl_step(pi, nri, ti, r_pre.x@, r_pre.y@)->0;
                    let aa = add_step(pi, nri, d.0, d.1, q.x@, q.y@)->0;
                    assert(miller_trace(pi, nri, ti, tw, q.x@, q.y@, r_pre.x@, r_pre.y@, pre_suffix)
                        == trace_glue(
                        seq![(dc.0@, dc.1@), (ac.0@, ac.1@)],
                        miller_trace(pi, nri, ti, tw, q.x@, q.y@, r.x@, r.y@, post_suffix),
                    ));
                    assert(coeffs_view(ell_coeffs@) =~= coeffs_view(ell_pre) + seq![
                        (dc.0@, dc.1@),
                        (ac.0@, ac.1@),
                    ]);
                    if miller_trace(pi, nri, ti, tw, q.x@, q.y@, r.x@, r.y@, post_suffix) is Some {
                        let rest = miller_trace(
                            pi,
                            nri,
                            ti,
                            tw,
                            q.x@,
                            q.y@,
                            r.x@,
                            r.y@,
                            post_suffix,
                        )->0;
                        assert(coeffs_view(ell_pre) + (seq![(dc.0@, dc.1@), (ac.0@, ac.1@)] + rest)
                            =~= coeffs_view(ell_coeffs@) + rest);
                    }
                }
            } else {
                proof {
                    assert(miller_trace(pi, nri, ti, tw, q.x@, q.y@, r_pre.x@, r_pre.y@, pre_suffix)
                        == trace_glue(
                        seq![(dc.0@, dc.1@)],
                        miller_trace(pi, nri, ti, tw, q.x@, q.y@, r.x@, r.y@, post_suffix),
                    ));
                    if miller_trace(pi, nri, ti, tw, q.x@, q.y@, r.x@, r.y@, post_suffix) is Some {
                        let rest = miller_trace(
                            pi,
                            nri,
                            ti,
                            tw,
                            q.x@,
                            q.y@,
                            r.x@,
                            r.y@,
                            post_suffix,
                        )->0;
                        assert(coeffs_view(ell_pre) + (seq![(dc.0@, dc.1@)] + rest) =~= coeffs_view(
                            ell_coeffs@,
                        ) + rest);
                    }
                }
            }
            j = j + 1;
        }
        proof {
            assert(bits.skip(j as int).len() == 0);
            assert(miller_trace(pi, nri, ti, tw, q.x@, q.y@, r.x@, r.y@, bits.skip(j as int))
                == Some(Seq::<((int, int), (int, int))>::empty()));
            assert(coeffs_view(ell_coeffs@) + Seq::<((int, int), (int, int))>::empty()
                =~= coeffs_view(ell_coeffs@));
        }
        Ok(G2PreparedGadget { ell_coeffs })
    }

    /// Bakes a constant native prepared point into the circuit, normalizing
    /// each projective coefficient triple to its affine pair: zero fresh
    /// witness variables, zero fresh input variables, zero constraints.
    /// Fails exactly when some triple's `z` has no inverse.
    pub fn alloc_constant(cs: &mut ConstraintSystem, pp: &CurveParams, t: &G2Prepared) -> (res:
        Result<G2PreparedGadget, SynthesisError>)
        requires
            pp.wf(),
            t.wf(pp.modulus as int),
        ensures
            match res {
                Ok(g) => {
                    &&& normalize_coeffs(
                        pp.modulus as int,
                        pp.nonresidue as int,
                        triples_view(t.ell_coeffs@),
                    ) == Some(coeffs_view(g.ell_coeffs@))
                    &&& g.wf(pp.modulus as int)
                    &&& *final(cs) == *old(cs)
                },
                Err(e) => {
                    &&& normalize_coeffs(
                        pp.modulus as int,
                        pp.nonresidue as int,
                        triples_view(t.ell_coeffs@),
                    ) is None
                    &&& e == SynthesisError::NonInvertible
                },
            },
    {
        let p = pp.modulus;
        let nr = pp.nonresidue;
        let ghost pi = p as int;
        let ghost nri = nr as int;
        let ghost tv = triples_view(t.ell_coeffs@);
        let mut res: Vec<(Fp2Gadget, Fp2Gadget)> = Vec::new();
        proof {
            assert(coeffs_view(res@) =~= Seq::<((int, int), (int, int))>::empty());
            assert(tv.skip(0) =~= tv);
        }
        let mut i: usize = 0;
        while i < t.ell_coeffs.len()
            invariant
                pp.wf(),
                pi == pp.modulus as int,
                nri == pp.nonresidue as int,
                p == pp.modulus,
                nr == pp.nonresidue,
                t.wf(pi),
                *cs == *old(cs),
                tv == triples_view(t.ell_coeffs@),
                i <= t.ell_coeffs@.len(),
                res@.len() == i,
                forall|k: int|
                    0 <= k < res@.len() ==> {
                        &&& (#[trigger] res@[k]).0.wf(pi)
                        &&& res@[k].1.wf(pi)
                    },
                normalize_coeffs(pi, nri, tv) == trace_glue(
                    coeffs_view(res@),
                    normalize_coeffs(pi, nri, tv.skip(i as int)),
                ),
            decreases t.ell_coeffs@.len() - i,
        {
            let ghost pre_suffix = tv.skip(i as int);
            proof {
                assert(pre_suffix.len() == tv.len() - i);
                assert(pre_suffix[0] == tv[i as int]);
                assert(pre_suffix.skip(1) =~= tv.skip(i as int + 1));
            }
            let (x, y, z) = t.ell_coeffs[i];
            proof {
                assert(tv[i as int] == (x@, y@, z@));
            }
            let z_inv = match z.inverse_val(p, nr) {
                Some(v) => v,
                None => {
                    proof {
                        assert(normalize_coeffs(pi, nri, pre_suffix) is None);
                    }
                    return Err(SynthesisError::NonInvertible);
                },
            };
            let x_norm = x.mul_val(p, nr, &z_inv);
            let y_norm = y.mul_val(p, nr, &z_inv);
            let x_gadget = Fp2Gadget::alloc_constant(cs, p, &x_norm);
            let y_gadget = Fp2Gadget::alloc_constant(cs, p, &y_norm);
            let ghost res_pre = res@;
            res.push((x_gadget, y_gadget));
            proof {
                assert(coeffs_view(res_pre.push((x_gadget, y_gadget))) =~= coeffs_view(res_pre)
                    + seq![(x_gadget@, y_gadget@)]);
                if normalize_coeffs(pi, nri, tv.skip(i as int + 1)) is Some {
                    let rest = normalize_coeffs(pi, nri, tv.skip(i as int + 1))->0;
                    assert(coeffs_view(res_pre) + (seq![(x_gadget@, y_gadget@)] + rest)
                        =~= coeffs_view(res@) + rest);
                }
            }
            i = i + 1;
        }
        proof {
            assert(tv.skip(i as int).len() == 0);
            assert(coeffs_view(res@) + Seq::<((int, int), (int, int))>::empty() =~= coeffs_view(
                res@,
            ));
        }
        Ok(G2PreparedGadget { ell_coeffs: res })
    }

    /// Canonical serialization: for every coefficient pair in order, the
    /// canonical bytes of its two extension-field components.
    pub fn to_bytes(&self, cs: &mut ConstraintSystem) -> (r: Result<Vec<u8>, SynthesisError>)
        requires
            old(cs).num_witness_vars + 32 * self.ell_coeffs@.len() <= u64::MAX,
            old(cs).num_constraints + 32 * self.ell_coeffs@.len() <= u64::MAX,
            32 * self.ell_coeffs@.len() <= usize::MAX,
        ensures
            match r {
                Ok(b) => {
                    &&& b@ == g2_coeffs_bytes(coeffs_view(self.ell_coeffs@))
                    &&& b@.len() == 32 * self.ell_coeffs@.len()
                    &&& cs_grew(
                        *old(cs),
                        *final(cs),
                        32 * self.ell_coeffs@.len() as int,
                        8 * self.ell_coeffs@.len() as int,
                    )
                },
                Err(_) => false,
            },
    {
        let ghost cv = coeffs_view(self.ell_coeffs@);
        let ghost n = self.ell_coeffs@.len() as int;
        let mut out: Vec<u8> = Vec::new();
        proof {
            assert(cv.skip(0) =~= cv);
            assert(out@ + g2_coeffs_bytes(cv) =~= g2_coeffs_bytes(cv));
        }
        let mut i: usize = 0;
        while i < self.ell_coeffs.len()
            invariant
                cv == coeffs_view(self.ell_coeffs@),
                n == self.ell_coeffs@.len() as int,
                i <= n,
                32 * n <= usize::MAX,
                out@.len() == 32 * i,
                cs.num_witness_vars == old(cs).num_witness_vars + 32 * i,
                cs.num_constraints == old(cs).num_constraints + 8 * i,
                cs.num_input_vars == old(cs).num_input_vars,
                old(cs).num_witness_vars + 32 * n <= u64::MAX,
                old(cs).num_constraints + 32 * n <= u64::MAX,
                g2_coeffs_bytes(cv) =~= out@ + g2_coeffs_bytes(cv.skip(i as int)),
            decreases n - i,
        {
            let ghost pre_suffix = cv.skip(i as int);
            let pair = self.ell_coeffs[i];
            let ghost out_pre = out@;
            proof {
                assert(cv[i as int] == (pair.0@, pair.1@));
                assert(pre_suffix[0] == cv[i as int]);
                assert(pre_suffix.skip(1) =~= cv.skip(i as int + 1));
            }
            pair.0.to_bytes(cs, &mut out);
            pair.1.to_bytes(cs, &mut out);
            proof {
                assert(out@ =~= out_pre + f2_bytes(pair.0@) + f2_bytes(pair.1@));
                assert(out_pre + (f2_bytes(pair.0@) + f2_bytes(pair.1@) + g2_coeffs_bytes(
                    cv.skip(i as int + 1),
                )) =~= out@ + g2_coeffs_bytes(cv.skip(i as int + 1)));
            }
            i = i + 1;
        }
        proof {
            assert(g2_coeffs_bytes(cv.skip(n)) =~= Seq::<u8>::empty());
            assert(out@ + Seq::<u8>::empty() =~= out@);
        }
        Ok(out)
    }

    /// Any-representative serialization: the same bytes for this model's
    /// reduced witnesses, under fewer constraints.
    pub fn to_non_unique_bytes(&self, cs: &mut ConstraintSystem) -> (r: Result<
        Vec<u8>,
        SynthesisError,
    >)
        requires
            old(cs).num_witness_vars + 32 * self.ell_coeffs@.len() <= u64::MAX,
            old(cs).num_constraints + 32 * self.ell_coeffs@.len() <= u64::MAX,
            32 * self.ell_coeffs@.len() <= usize::MAX,
        ensures
            match r {
                Ok(b) => {
                    &&& b@ == g2_coeffs_bytes(coeffs_view(self.ell_coeffs@))
                    &&& b@.len() == 32 * self.ell_coeffs@.len()
                    &&& cs_grew(
                        *old(cs),
                        *final(cs),
                        32 * self.ell_coeffs@.len() as int,
                        4 * self.ell_coeffs@.len() as int,
                    )
                },
                Err(_) => false,
            },
    {
        let ghost cv = coeffs_view(self.ell_coeffs@);
        let ghost n = self.ell_coeffs@.len() as int;
        let mut out: Vec<u8> = Vec::new();
        proof {
            assert(cv.skip(0) =~= cv);
            assert(out@ + g2_coeffs_bytes(cv) =~= g2_coeffs_bytes(cv));
        }
        let mut i: usize = 0;
        while i < self.ell_coeffs.len()
            invariant
                cv == coeffs_view(self.ell_coeffs@),
                n == self.ell_coeffs@.len() as int,
                i <= n,
                32 * n <= usize::MAX,
                out@.len() == 32 * i,
                cs.num_witness_vars == old(cs).num_witness_vars + 32 * i,
                cs.num_constraints == old(cs).num_constraints + 4 * i,
                cs.num_input_vars == old(cs).num_input_vars,
                old(cs).num_witness_vars + 32 * n <= u64::MAX,
                old(cs).num_constraints + 32 * n <= u64::MAX,
                g2_coeffs_bytes(cv) =~= out@ + g2_coeffs_bytes(cv.skip(i as int)),
            decreases n - i,
        {
            let ghost pre_suffix = cv.skip(i as int);
            let pair = self.ell_coeffs[i];
            let ghost out_pre = out@;
            proof {
                assert(cv[i as int] == (pair.0@, pair.1@));
                assert(pre_suffix[0] == cv[i as int]);
                assert(pre_suffix.skip(1) =~= cv.skip(i as int + 1));
            }
            pair.0.to_non_unique_bytes(cs, &mut out);
            pair.1.to_non_unique_bytes(cs, &mut out);
            proof {
                assert(out@ =~= out_pre + f2_bytes(pair.0@) + f2_bytes(pair.1@));
                assert(out_pre + (f2_bytes(pair.0@) + f2_bytes(pair.1@) + g2_coeffs_bytes(
                    cv.skip(i as int + 1),
                )) =~= out@ + g2_coeffs_bytes(cv.skip(i as int + 1)));
            }
            i = i + 1;
        }
        proof {
            assert(g2_coeffs_bytes(cv.skip(n)) =~= Seq::<u8>::empty());
            assert(out@ + Seq::<u8>::empty() =~= out@);
        }
        Ok(out)
    }

    /// Witness allocation of a prepared G2 point is not offered: in this
    /// protocol G2 preparation always operates on a fixed, publicly known
    /// point.  Fails with the explicit unsupported-mode error and leaves the
    /// circuit unchanged; the value provider is never consulted.
    pub fn alloc_witness(cs: &mut ConstraintSystem, _value: Option<&G2Prepared>) -> (r: Result<
        G2PreparedGadget,
        SynthesisError,
    >)
        ensures
            r == Err::<G2PreparedGadget, SynthesisError>(SynthesisError::Unsupported),
            *final(cs) == *old(cs),
    {
        Err(SynthesisError::Unsupported)
    }

    /// Public-input allocation of a prepared G2 point is not offered, as
    /// `alloc_witness` is not.  Fails with the explicit unsupported-mode
    /// error and leaves the circuit unchanged.
    pub fn alloc_input(cs: &mut ConstraintSystem, _value: Option<&G2Prepared>) -> (r: Result<
        G2PreparedGadget,
        SynthesisError,
    >)
        ensures
            r == Err::<G2PreparedGadget, SynthesisError>(SynthesisError::Unsupported),
            *final(cs) == *old(cs),
    {
        Err(SynthesisError::Unsupported)
    }
}

} // verus!
