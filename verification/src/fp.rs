//! Base-field arithmetic: elements of the prime field are residues below the
//! curve family's modulus, held in a `u64`.  The spec-level operations are
//! stated directly as integer arithmetic reduced modulo the modulus.

use vstd::prelude::*;
use vstd::arithmetic::div_mod::{lemma_mod_add_multiples_vanish, lemma_mod_bound};

verus! {

/// A residue: a value of the base field in reduced form.
pub open spec fn fp_wf(p: int, a: int) -> bool {
    0 <= a < p
}

pub open spec fn fp_add(p: int, a: int, b: int) -> int {
    (a + b) % p
}

pub open spec fn fp_sub(p: int, a: int, b: int) -> int {
    (a - b) % p
}

pub open spec fn fp_mul(p: int, a: int, b: int) -> int {
    (a * b) % p
}

pub open spec fn fp_neg(p: int, a: int) -> int {
    (0 - a) % p
}

/// The least candidate at or above `c` that is a multiplicative inverse of
/// `a` modulo `p`, if any candidate below `p` works.
pub open spec fn fp_first_inv_from(p: int, a: int, c: int) -> Option<int>
    decreases p - c,
{
    if c < 0 || c >= p {
        None
    } else if fp_mul(p, a, c) == 1 {
        Some(c)
    } else {
        fp_first_inv_from(p, a, c + 1)
    }
}

/// The multiplicative inverse of `a` modulo `p`: the least residue whose
/// product with `a` reduces to one.  In a prime field this is the unique
/// inverse; `None` exactly when no residue works (in particular for `a == 0`).
pub open spec fn fp_inv(p: int, a: int) -> Option<int> {
    fp_first_inv_from(p, a, 0)
}

pub fn fp_add_exec(p: u64, a: u64, b: u64) -> (r: u64)
    requires
        2 <= p,
        a < p,
        b < p,
    ensures
        r == fp_add(p as int, a as int, b as int),
        r < p,
{
    let s = ((a as u128) + (b as u128)) % (p as u128);
    s as u64
}

pub fn fp_sub_exec(p: u64, a: u64, b: u64) -> (r: u64)
    requires
        2 <= p,
        a < p,
        b < p,
    ensures
        r == fp_sub(p as int, a as int, b as int),
        r < p,
{
    let s = ((a as u128) + (p as u128) - (b as u128)) % (p as u128);
    proof {
        lemma_mod_add_multiples_vanish(a as int - b as int, p as int);
        lemma_mod_bound(a as int - b as int, p as int);
    }
    s as u64
}

pub fn fp_mul_exec(p: u64, a: u64, b: u64) -> (r: u64)
    requires
        2 <= p,
        a < p,
        b < p,
    ensures
        r == fp_mul(p as int, a as int, b as int),
        r < p,
{
    proof {
        assert((a as int) * (b as int) <= (u64::MAX as int) * (u64::MAX as int))
            by (nonlinear_arith)
            requires a <= u64::MAX && b <= u64::MAX,
        ;
        lemma_mod_bound((a as int) * (b as int), p as int);
    }
    let s = ((a as u128) * (b as u128)) % (p as u128);
    s as u64
}

pub fn fp_neg_exec(p: u64, a: u64) -> (r: u64)
    requires
        2 <= p,
        a < p,
    ensures
        r == fp_neg(p as int, a as int),
        r < p,
{
    let s = ((p as u128) - (a as u128)) % (p as u128);
    proof {
        lemma_mod_add_multiples_vanish(0 - a as int, p as int);
        lemma_mod_bound(0 - a as int, p as int);
    }
    s as u64
}

/// Scans the residues in increasing order for the multiplicative inverse of
/// `a`.  Exact: it returns precisely `fp_inv`, so `Some` iff some residue
/// inverts `a`.
pub fn fp_inv_exec(p: u64, a: u64) -> (r: Option<u64>)
    requires
        2 <= p,
        a < p,
    ensures
        match r {
            Some(b) => {
                &&& b < p
                &&& fp_mul(p as int, a as int, b as int) == 1
                &&& fp_inv(p as int, a as int) == Some(b as int)
            },
            None => {
                &&& fp_inv(p as int, a as int) is None
                &&& forall|b: int|
                    0 <= b < p ==> fp_mul(p as int, a as int, b) != 1
            },
        },
{
    let mut c: u64 = 0;
    while c < p
        invariant
            2 <= p,
            a < p,
            c <= p,
            fp_inv(p as int, a as int) == fp_first_inv_from(p as int, a as int, c as int),
            forall|b: int| 0 <= b < c ==> fp_mul(p as int, a as int, b) != 1,
        decreases p - c,
    {
        let prod = fp_mul_exec(p, a, c);
        if prod == 1 {
            return Some(c);
        }
        c = c + 1;
    }
    None
}

} // verus!
