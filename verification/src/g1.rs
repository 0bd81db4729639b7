//! Prepared G1 points.  Preparation of a G1 point for the pairing is the
//! identity transform: the prepared gadget wraps the affine point gadget
//! unchanged, and adds no constraint beyond whatever constructed the point.

use vstd::prelude::*;
use crate::bytes::le_bytes;
use crate::cs::{cs_grew, ConstraintSystem, FpGadget};
use crate::{CurveParams, SynthesisError};

verus! {

/// A native (out-of-circuit) prepared G1 point: the affine point itself.
#[derive(Clone, Copy, Debug, PartialEq, Eq, Structural)]
pub struct G1Prepared {
    pub x: u64,
    pub y: u64,
}

impl G1Prepared {
    pub open spec fn wf(&self, p: int) -> bool {
        0 <= self.x < p && 0 <= self.y < p
    }
}

/// An affine G1 point gadget: a pair of base-field gadgets.  Construction
/// enforces no curve membership; a collaborator that needs "this point lies
/// on the curve" must constrain it separately before trusting the point.
#[derive(Clone, Copy, Debug, PartialEq, Eq, Structural)]
pub struct G1Gadget {
    pub x: FpGadget,
    pub y: FpGadget,
}

impl G1Gadget {
    pub open spec fn wf(&self, p: int) -> bool {
        self.x.wf(p) && self.y.wf(p)
    }

    /// Bakes a constant point into the circuit: no fresh variable, no
    /// constraint.
    pub fn alloc_constant(cs: &mut ConstraintSystem, p: u64, v: &G1Prepared) -> (r: G1Gadget)
        requires
            2 <= p,
            v.wf(p as int),
        ensures
            r.x@ == v.x as int,
            r.y@ == v.y as int,
            r.wf(p as int),
            *final(cs) == *old(cs),
    {
        G1Gadget {
            x: FpGadget::alloc_constant(cs, p, v.x),
            y: FpGadget::alloc_constant(cs, p, v.y),
        }
    }
}

/// The circuit representation of a prepared G1 point: the point gadget,
/// unchanged and immutable after construction.
#[derive(Clone, Copy, Debug, PartialEq, Eq, Structural)]
pub struct G1PreparedGadget(pub G1Gadget);

impl G1PreparedGadget {
    /// G1 preparation is the identity transform: wraps the point unchanged
    /// and adds nothing to the circuit.
    pub fn from_affine(cs: &mut ConstraintSystem, q: &G1Gadget) -> (r: Result<
        G1PreparedGadget,
        SynthesisError,
    >)
        ensures
            r == Ok::<G1PreparedGadget, SynthesisError>(G1PreparedGadget(*q)),
            *final(cs) == *old(cs),
    {
        Ok(G1PreparedGadget(*q))
    }

    /// The native prepared point the current assignment gives this gadget;
    /// for testing and debugging, not a circuit operation.
    pub fn get_value(&self) -> (r: Option<G1Prepared>)
        ensures
            r == Some(G1Prepared { x: self.0.x.value, y: self.0.y.value }),
    {
        Some(G1Prepared { x: self.0.x.value, y: self.0.y.value })
    }

    /// Bakes a constant prepared point into the circuit: zero fresh witness
    /// variables, zero fresh input variables, zero constraints.
    pub fn alloc_constant(cs: &mut ConstraintSystem, pp: &CurveParams, t: &G1Prepared) -> (r:
        Result<G1PreparedGadget, SynthesisError>)
        requires
            pp.wf(),
            t.wf(pp.modulus as int),
        ensures
            match r {
                Ok(g) => {
                    &&& g.0.x@ == t.x as int
                    &&& g.0.y@ == t.y as int
                    &&& g.0.wf(pp.modulus as int)
                    &&& *final(cs) == *old(cs)
                },
                Err(_) => false,
            },
    {
        Ok(G1PreparedGadget(G1Gadget::alloc_constant(cs, pp.modulus, t)))
    }

    /// Witness allocation of a prepared G1 point is not offered: in this
    /// protocol preparation always operates on a fixed, publicly known
    /// point.  Fails with the explicit unsupported-mode error and leaves the
    /// circuit unchanged; the value provider is never consulted.
    pub fn alloc_witness(cs: &mut ConstraintSystem, _value: Option<&G1Prepared>) -> (r: Result<
        G1PreparedGadget,
        SynthesisError,
    >)
        ensures
            r == Err::<G1PreparedGadget, SynthesisError>(SynthesisError::Unsupported),
            *final(cs) == *old(cs),
    {
        Err(SynthesisError::Unsupported)
    }

    /// Public-input allocation of a prepared G1 point is not offered, as
    /// `alloc_witness` is not.  Fails with the explicit unsupported-mode error and
    /// leaves the circuit unchanged.
    pub fn alloc_input(cs: &mut ConstraintSystem, _value: Option<&G1Prepared>) -> (r: Result<
        G1PreparedGadget,
        SynthesisError,
    >)
        ensures
            r == Err::<G1PreparedGadget, SynthesisError>(SynthesisError::Unsupported),
            *final(cs) == *old(cs),
    {
        Err(SynthesisError::Unsupported)
    }

    /// Canonical serialization: the wrapped point's coordinates, eight
    /// little-endian bytes each, x first.
    pub fn to_bytes(&self, cs: &mut ConstraintSystem) -> (r: Result<Vec<u8>, SynthesisError>)
        requires
            old(cs).room_for(16),
        ensures
            match r {
                Ok(b) => {
                    &&& b@ =~= le_bytes(self.0.x@, 8) + le_bytes(self.0.y@, 8)
                    &&& cs_grew(*old(cs), *final(cs), 16, 4)
                },
                Err(_) => false,
            },
    {
        let mut out: Vec<u8> = Vec::new();
        self.0.x.to_bytes(cs, &mut out);
        self.0.y.to_bytes(cs, &mut out);
        Ok(out)
    }

    /// Any-representative serialization: the same bytes for this model's
    /// reduced witnesses, under fewer constraints.
    pub fn to_non_unique_bytes(&self, cs: &mut ConstraintSystem) -> (r: Result<
        Vec<u8>,
        SynthesisError,
    >)
        requires
            old(cs).room_for(16),
        ensures
            match r {
                Ok(b) => {
                    &&& b@ =~= le_bytes(self.0.x@, 8) + le_bytes(self.0.y@, 8)
                    &&& cs_grew(*old(cs), *final(cs), 16, 2)
                },
                Err(_) => false,
            },
    {
        let mut out: Vec<u8> = Vec::new();
        self.0.x.to_non_unique_bytes(cs, &mut out);
        self.0.y.to_non_unique_bytes(cs, &mut out);
        Ok(out)
    }
}

} // verus!
