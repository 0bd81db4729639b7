//! In-circuit pairing-preparation gadgets for a BLS12-style curve family.
//!
//! The library models the constraint-system ("circuit") side of pairing
//! preparation: prepared G1/G2 point gadgets, the allocation discipline for
//! constants, witnesses and public inputs, the Miller-loop double/add step
//! functions that emit the line-coefficient trace, and constrained byte
//! serialization of that trace.

use vstd::prelude::*;

pub mod bytes;
pub mod cs;
pub mod fp;
pub mod fp2;
pub mod g1;
pub mod g2;
pub mod laws;

verus! {

/// Crate-wide error kinds for the primitive families that surround the
/// pairing gadgets: a wrong input length, or a group element that is not of
/// prime order.
#[derive(Clone, Copy, Debug, PartialEq, Eq, Structural)]
pub enum CryptoError {
    IncorrectInputLength(usize),
    NotPrimeOrder,
}

/// Failure of a circuit-construction step.  All failures surface
/// synchronously to the caller of the operation that detected them; a partial
/// circuit must not be reused after an error.
#[derive(Clone, Copy, Debug, PartialEq, Eq, Structural)]
pub enum SynthesisError {
    /// An in-circuit or native field inversion was asked of an element with
    /// no multiplicative inverse.
    NonInvertible,
    /// An enforced relation cannot hold of the current assignment, such as a
    /// point that must not be the identity sentinel being the identity.
    Unsatisfiable,
    /// The requested allocation mode is not offered by this gadget.
    Unsupported,
}

/// The capability set of one supported curve of the family: the base-field
/// modulus, the quadratic nonresidue that builds the extension field, the
/// twist tag, and the bits of the pairing's fixed loop scalar, most
/// significant first.  The bits are a public constant of the curve, never
/// witness data: the whole shape of the prepared circuit is a function of
/// them alone.
pub struct CurveParams {
    pub modulus: u64,
    pub nonresidue: u64,
    pub twist_type: TwistType,
    pub loop_bits: Vec<bool>,
}

impl CurveParams {
    /// A conforming parameter set: a modulus that admits residue arithmetic,
    /// a reduced nonresidue, and a loop scalar whose top bit is set.
    pub open spec fn wf(&self) -> bool {
        &&& 2 <= self.modulus
        &&& self.nonresidue < self.modulus
        &&& self.loop_bits@.len() >= 1
        &&& self.loop_bits@[0] == true
    }
}

/// How the quadratic twist represents G2: the tag decides only the order in
/// which the two line coefficients of a Miller-loop step are stored, never
/// their values.
#[derive(Clone, Copy, Debug, PartialEq, Eq, Structural)]
pub enum TwistType {
    M,
    D,
}

} // verus!
