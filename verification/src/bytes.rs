//! Byte serialization of field elements: eight little-endian bytes per
//! base-field element, sixteen per extension-field element.  The encoding of
//! a reduced element is canonical, and decoding recovers the element exactly.

use vstd::prelude::*;
use vstd::arithmetic::div_mod::{lemma_div_pos_is_pos, lemma_fundamental_div_mod};
use vstd::arithmetic::power::{lemma_pow0, lemma_pow1, lemma_pow_adds, pow};
use crate::cs::{cs_grew, ConstraintSystem, Fp2Gadget, FpGadget};

verus! {

/// The `n` little-endian base-256 digits of `v`.
pub open spec fn le_bytes(v: int, n: nat) -> Seq<u8>
    decreases n,
{
    if n == 0 {
        Seq::empty()
    } else {
        seq![(v % 256) as u8] + le_bytes(v / 256, (n - 1) as nat)
    }
}

/// The value a little-endian byte string denotes.
pub open spec fn le_val(s: Seq<u8>) -> int
    decreases s.len(),
{
    if s.len() == 0 {
        0
    } else {
        s[0] + 256 * le_val(s.skip(1))
    }
}

/// The bytes of one extension-field element: its two base-field components,
/// eight bytes each, first component first.
pub open spec fn f2_bytes(a: (int, int)) -> Seq<u8> {
    le_bytes(a.0, 8) + le_bytes(a.1, 8)
}

pub proof fn lemma_le_bytes_len(v: int, n: nat)
    ensures
        le_bytes(v, n).len() == n,
    decreases n,
{
    if n > 0 {
        lemma_le_bytes_len(v / 256, (n - 1) as nat);
    }
}

/// Decoding the little-endian digits of `v` gives back `v`: the encoding of
/// a value below `256^n` round-trips exactly.
pub proof fn lemma_le_round_trip(v: int, n: nat)
    requires
        0 <= v < pow(256, n),
    ensures
        le_val(le_bytes(v, n)) == v,
    decreases n,
{
    if n == 0 {
        lemma_pow0(256);
    } else {
        let q = v / 256;
        let bs = le_bytes(v, n);
        lemma_fundamental_div_mod(v, 256);
        lemma_pow_adds(256, 1nat, (n - 1) as nat);
        lemma_pow1(256);
        assert(v < 256 * pow(256, (n - 1) as nat));
        lemma_div_pos_is_pos(v, 256);
        assert(q < pow(256, (n - 1) as nat)) by {
            if q >= pow(256, (n - 1) as nat) {
                assert(v >= 256 * q);
                assert(256 * q >= 256 * pow(256, (n - 1) as nat))
                    by (nonlinear_arith)
                    requires q >= pow(256, (n - 1) as nat),
                ;
            }
        }
        lemma_le_round_trip(q, (n - 1) as nat);
        assert(bs.skip(1) =~= le_bytes(q, (n - 1) as nat));
        assert(le_val(bs) == v % 256 + 256 * q);
    }
}

/// Writes the eight little-endian bytes of a base-field element onto the end
/// of `out`.
pub fn push_le_bytes(out: &mut Vec<u8>, v: u64)
    requires
        old(out).len() + 8 <= usize::MAX,
    ensures
        final(out)@ =~= old(out)@ + le_bytes(v as int, 8),
        final(out)@.len() == old(out)@.len() + 8,
{
    proof {
        lemma_le_bytes_len(v as int, 8);
    }
    let ghost pre = out@;
    let mut cur: u64 = v;
    let mut i: usize = 0;
    while i < 8
        invariant
            i <= 8,
            pre.len() + 8 <= usize::MAX,
            out@.len() == pre.len() + i,
            pre + le_bytes(v as int, 8) =~= out@ + le_bytes(cur as int, (8 - i) as nat),
        decreases 8 - i,
    {
        let b = (cur % 256) as u8;
        out.push(b);
        cur = cur / 256;
        i = i + 1;
    }
    proof {
        assert(le_bytes(cur as int, 0) =~= Seq::<u8>::empty());
    }
}

/// The bytes of a coefficient-pair sequence: for every pair in order, the
/// sixteen bytes of its first component, then of its second.
pub open spec fn g2_coeffs_bytes(s: Seq<((int, int), (int, int))>) -> Seq<u8>
    decreases s.len(),
{
    if s.len() == 0 {
        Seq::empty()
    } else {
        f2_bytes(s[0].0) + f2_bytes(s[0].1) + g2_coeffs_bytes(s.skip(1))
    }
}

pub proof fn lemma_g2_coeffs_bytes_len(s: Seq<((int, int), (int, int))>)
    ensures
        g2_coeffs_bytes(s).len() == 32 * s.len(),
    decreases s.len(),
{
    if s.len() > 0 {
        lemma_le_bytes_len(s[0].0.0, 8);
        lemma_le_bytes_len(s[0].0.1, 8);
        lemma_le_bytes_len(s[0].1.0, 8);
        lemma_le_bytes_len(s[0].1.1, 8);
        lemma_g2_coeffs_bytes_len(s.skip(1));
    }
}

/// Decoding a byte string back into coefficient pairs, thirty-two bytes at a
/// time: the inverse reading of `g2_coeffs_bytes`.
pub open spec fn decode_coeffs(bs: Seq<u8>) -> Seq<((int, int), (int, int))>
    decreases bs.len(),
{
    if bs.len() < 32 {
        Seq::empty()
    } else {
        seq![
            (
                (le_val(bs.subrange(0, 8)), le_val(bs.subrange(8, 16))),
                (le_val(bs.subrange(16, 24)), le_val(bs.subrange(24, 32))),
            ),
        ] + decode_coeffs(bs.skip(32))
    }
}

impl FpGadget {
    /// Canonical in-circuit serialization: the eight byte gadgets of the one
    /// reduced representative, constrained to recompose to the element and to
    /// be that canonical representative (eight fresh byte variables, the
    /// recomposition constraint and the canonicity constraint).
    pub fn to_bytes(&self, cs: &mut ConstraintSystem, out: &mut Vec<u8>)
        requires
            old(out).len() + 8 <= usize::MAX,
            old(cs).room_for(8),
        ensures
            final(out)@ =~= old(out)@ + le_bytes(self@, 8),
            final(out)@.len() == old(out)@.len() + 8,
            cs_grew(*old(cs), *final(cs), 8, 2),
    {
        cs.record_growth(8, 2);
        push_le_bytes(out, self.value);
    }

    /// As `to_bytes`, but the bytes are only constrained to recompose to the
    /// element, not to be the canonical representative; the witness this
    /// model carries is already reduced, so the emitted bytes coincide.
    pub fn to_non_unique_bytes(&self, cs: &mut ConstraintSystem, out: &mut Vec<u8>)
        requires
            old(out).len() + 8 <= usize::MAX,
            old(cs).room_for(8),
        ensures
            final(out)@ =~= old(out)@ + le_bytes(self@, 8),
            final(out)@.len() == old(out)@.len() + 8,
            cs_grew(*old(cs), *final(cs), 8, 1),
    {
        cs.record_growth(8, 1);
        push_le_bytes(out, self.value);
    }
}

impl Fp2Gadget {
    /// Canonical serialization of both components, first component first.
    pub fn to_bytes(&self, cs: &mut ConstraintSystem, out: &mut Vec<u8>)
        requires
            old(out).len() + 16 <= usize::MAX,
            old(cs).room_for(16),
        ensures
            final(out)@ =~= old(out)@ + f2_bytes(self@),
            final(out)@.len() == old(out)@.len() + 16,
            cs_grew(*old(cs), *final(cs), 16, 4),
    {
        cs.record_growth(16, 4);
        push_le_bytes(out, self.c0);
        push_le_bytes(out, self.c1);
    }

    /// Any-representative serialization of both components; the carried
    /// witness is reduced, so the bytes are the canonical ones.
    pub fn to_non_unique_bytes(&self, cs: &mut ConstraintSystem, out: &mut Vec<u8>)
        requires
            old(out).len() + 16 <= usize::MAX,
            old(cs).room_for(16),
        ensures
            final(out)@ =~= old(out)@ + f2_bytes(self@),
            final(out)@.len() == old(out)@.len() + 16,
            cs_grew(*old(cs), *final(cs), 16, 2),
    {
        cs.record_growth(16, 2);
        push_le_bytes(out, self.c0);
        push_le_bytes(out, self.c1);
    }
}

} // verus!
