//! Global properties of the preparation subsystem, stated and proved over
//! the same spec functions the public contracts use.

use vstd::prelude::*;
use vstd::arithmetic::power::pow;
use crate::bytes::{
    decode_coeffs, g2_coeffs_bytes, le_bytes, lemma_g2_coeffs_bytes_len,
    lemma_le_bytes_len, lemma_le_round_trip,
};
use crate::fp2::{f2_add, f2_inv, f2_mul, f2_mul_fp, f2_neg, f2_sub, f2_wf, lemma_f2_mul_comm, lemma_f2_mul_dist_sub, lemma_f2_ops_wf, lemma_f2_sub_swap};
use crate::g2::{add_step, dbl_step, miller_trace, trace_len};
use crate::TwistType;

verus! {

/// Determinism of shape: whenever the double-and-add walk succeeds, the
/// coefficient trace has length `trace_len(bits)` — a function of the public
/// loop scalar alone, never of the point or of any witness value.
pub proof fn lemma_trace_shape(
    p: int,
    nr: int,
    two_inv: int,
    twist: TwistType,
    qx: (int, int),
    qy: (int, int),
    rx: (int, int),
    ry: (int, int),
    bits: Seq<bool>,
)
    ensures
        miller_trace(p, nr, two_inv, twist, qx, qy, rx, ry, bits) matches Some(s) ==> s.len()
            == trace_len(bits),
    decreases bits.len(),
{
    if bits.len() > 0 {
        let st = dbl_step(p, nr, two_inv, rx, ry);
        if st is Some {
            let d = st->0;
            if !bits[0] {
                lemma_trace_shape(p, nr, two_inv, twist, qx, qy, d.0, d.1, bits.skip(1));
            } else {
                let at = add_step(p, nr, d.0, d.1, qx, qy);
                if at is Some {
                    let aa = at->0;
                    lemma_trace_shape(p, nr, two_inv, twist, qx, qy, aa.0, aa.1, bits.skip(1));
                }
            }
        }
    }
}

/// Two successful preparations over the same loop scalar have traces of the
/// same length, whatever their points: only the values inside the
/// coefficients vary, never the count.
pub proof fn lemma_shape_deterministic(
    p: int,
    nr: int,
    two_inv: int,
    twist: TwistType,
    q1: ((int, int), (int, int)),
    q2: ((int, int), (int, int)),
    bits: Seq<bool>,
)
    ensures
        (miller_trace(p, nr, two_inv, twist, q1.0, q1.1, q1.0, q1.1, bits) is Some && miller_trace(
            p,
            nr,
            two_inv,
            twist,
            q2.0,
            q2.1,
            q2.0,
            q2.1,
            bits,
        ) is Some) ==> (miller_trace(p, nr, two_inv, twist, q1.0, q1.1, q1.0, q1.1, bits)->0).len()
            == (miller_trace(p, nr, two_inv, twist, q2.0, q2.1, q2.0, q2.1, bits)->0).len(),
{
    lemma_trace_shape(p, nr, two_inv, twist, q1.0, q1.1, q1.0, q1.1, bits);
    lemma_trace_shape(p, nr, two_inv, twist, q2.0, q2.1, q2.0, q2.1, bits);
}

/// Twist-order: swapping the twist tag swaps the two coefficients of every
/// emitted pair and changes nothing else — success, trace length and the
/// coefficient values are all twist-independent.
pub proof fn lemma_twist_order(
    p: int,
    nr: int,
    two_inv: int,
    qx: (int, int),
    qy: (int, int),
    rx: (int, int),
    ry: (int, int),
    bits: Seq<bool>,
)
    ensures
        ({
            let m = miller_trace(p, nr, two_inv, TwistType::M, qx, qy, rx, ry, bits);
            let d = miller_trace(p, nr, two_inv, TwistType::D, qx, qy, rx, ry, bits);
            &&& m is Some <==> d is Some
            &&& (m is Some ==> {
                let ms = m->0;
                let ds = d->0;
                &&& ms.len() == ds.len()
                &&& forall|i: int|
                    0 <= i < ms.len() ==> (#[trigger] ms[i]).0 == ds[i].1 && ms[i].1 == ds[i].0
            })
        }),
    decreases bits.len(),
{
    if bits.len() > 0 {
        let st = dbl_step(p, nr, two_inv, rx, ry);
        if st is Some {
            let d = st->0;
            if !bits[0] {
                lemma_twist_order(p, nr, two_inv, qx, qy, d.0, d.1, bits.skip(1));
            } else {
                let at = add_step(p, nr, d.0, d.1, qx, qy);
                if at is Some {
                    let aa = at->0;
                    lemma_twist_order(p, nr, two_inv, qx, qy, aa.0, aa.1, bits.skip(1));
                }
            }
        }
    }
}

/// Serialization round-trip: decoding the canonical byte sequence of a
/// coefficient trace of reduced field elements yields the trace exactly —
/// equal values, not merely congruent ones.
pub proof fn lemma_coeffs_bytes_round_trip(p: int, s: Seq<((int, int), (int, int))>)
    requires
        0 < p <= 0x10000000000000000,
        forall|i: int|
            0 <= i < s.len() ==> f2_wf(p, (#[trigger] s[i]).0) && f2_wf(p, s[i].1),
    ensures
        decode_coeffs(g2_coeffs_bytes(s)) == s,
    decreases s.len(),
{
    assert(pow(256, 8) == 0x10000000000000000) by {
        vstd::arithmetic::power::lemma_pow1(256);
        vstd::arithmetic::power::lemma_pow_adds(256, 1, 1);
        assert(pow(256, 2) == 0x10000);
        vstd::arithmetic::power::lemma_pow_adds(256, 2, 2);
        assert(pow(256, 4) == 0x100000000);
        vstd::arithmetic::power::lemma_pow_adds(256, 4, 4);
    }
    if s.len() == 0 {
        assert(decode_coeffs(g2_coeffs_bytes(s)) =~= s);
    } else {
        let head = s[0];
        let bs = g2_coeffs_bytes(s);
        let rest = g2_coeffs_bytes(s.skip(1));
        lemma_le_bytes_len(head.0.0, 8);
        lemma_le_bytes_len(head.0.1, 8);
        lemma_le_bytes_len(head.1.0, 8);
        lemma_le_bytes_len(head.1.1, 8);
        lemma_g2_coeffs_bytes_len(s.skip(1));
        assert(bs.len() == 32 + rest.len());
        assert(bs.subrange(0, 8) =~= le_bytes(head.0.0, 8));
        assert(bs.subrange(8, 16) =~= le_bytes(head.0.1, 8));
        assert(bs.subrange(16, 24) =~= le_bytes(head.1.0, 8));
        assert(bs.subrange(24, 32) =~= le_bytes(head.1.1, 8));
        assert(bs.skip(32) =~= rest);
        lemma_le_round_trip(head.0.0, 8);
        lemma_le_round_trip(head.0.1, 8);
        lemma_le_round_trip(head.1.0, 8);
        lemma_le_round_trip(head.1.1, 8);
        lemma_coeffs_bytes_round_trip(p, s.skip(1));
        assert(decode_coeffs(bs) =~= seq![head] + s.skip(1));
        assert(seq![head] + s.skip(1) =~= s);
    }
}

/// The slope a doubling step uses: the inverse of the ordinate times
/// three halves of the squared abscissa.
pub open spec fn dbl_slope(p: int, nr: int, two_inv: int, x: (int, int), y: (int, int)) -> (
    int,
    int,
) {
    f2_mul(
        p,
        nr,
        f2_inv(p, nr, y)->0,
        f2_add(p, f2_mul_fp(p, f2_mul(p, nr, x, x), two_inv), f2_mul(p, nr, x, x)),
    )
}

/// The slope an addition step uses: the ordinate difference over the
/// abscissa difference.
pub open spec fn add_slope(
    p: int,
    nr: int,
    rx: (int, int),
    ry: (int, int),
    qx: (int, int),
    qy: (int, int),
) -> (int, int) {
    f2_mul(p, nr, f2_inv(p, nr, f2_sub(p, qx, rx))->0, f2_sub(p, qy, ry))
}

/// Double-step algebraic correctness: a successful doubling step advances
/// the accumulator to the native point-doubling formula's output — abscissa
/// `c² - 2x` and ordinate `c·(x - x') - y` for its tangent slope `c` — and
/// emits exactly the line coefficients `c·x - y` and `-c`.
pub proof fn lemma_dbl_step_native(p: int, nr: int, two_inv: int, x: (int, int), y: (int, int))
    requires
        2 <= p,
        f2_wf(p, x),
        f2_wf(p, y),
    ensures
        dbl_step(p, nr, two_inv, x, y) matches Some(st) ==> ({
            let c = dbl_slope(p, nr, two_inv, x, y);
            &&& st.0 == f2_sub(p, f2_mul(p, nr, c, c), f2_add(p, x, x))
            &&& st.1 == f2_sub(p, f2_mul(p, nr, c, f2_sub(p, x, st.0)), y)
            &&& st.2 == f2_sub(p, f2_mul(p, nr, c, x), y)
            &&& st.3 == f2_neg(p, c)
        }),
{
    if dbl_step(p, nr, two_inv, x, y) is Some {
        let c = dbl_slope(p, nr, two_inv, x, y);
        let st = dbl_step(p, nr, two_inv, x, y)->0;
        let cx = f2_mul(p, nr, c, x);
        let cx3 = f2_mul(p, nr, c, st.0);
        lemma_f2_ops_wf(p, nr, c, x);
        lemma_f2_ops_wf(p, nr, f2_mul(p, nr, c, c), f2_add(p, x, x));
        lemma_f2_ops_wf(p, nr, c, st.0);
        lemma_f2_mul_dist_sub(p, nr, c, x, st.0);
        lemma_f2_sub_swap(p, cx, y, cx3);
    }
}

/// Add-step algebraic correctness: a successful addition step advances the
/// accumulator to the native point-addition formula's output — abscissa
/// `c² - (rx + qx)` and ordinate `c·(rx - x') - ry` for its secant slope
/// `c` — and emits exactly the line coefficients `c·rx - ry` and `-c`.
pub proof fn lemma_add_step_native(
    p: int,
    nr: int,
    rx: (int, int),
    ry: (int, int),
    qx: (int, int),
    qy: (int, int),
)
    requires
        2 <= p,
        f2_wf(p, rx),
        f2_wf(p, ry),
        f2_wf(p, qx),
        f2_wf(p, qy),
    ensures
        add_step(p, nr, rx, ry, qx, qy) matches Some(st) ==> ({
            let c = add_slope(p, nr, rx, ry, qx, qy);
            &&& st.0 == f2_sub(p, f2_mul(p, nr, c, c), f2_add(p, rx, qx))
            &&& st.1 == f2_sub(p, f2_mul(p, nr, c, f2_sub(p, rx, st.0)), ry)
            &&& st.2 == f2_sub(p, f2_mul(p, nr, c, rx), ry)
            &&& st.3 == f2_neg(p, c)
        }),
{
    if add_step(p, nr, rx, ry, qx, qy) is Some {
        let c = add_slope(p, nr, rx, ry, qx, qy);
        let st = add_step(p, nr, rx, ry, qx, qy)->0;
        lemma_f2_mul_comm(p, nr, f2_sub(p, rx, st.0), c);
    }
}

} // verus!

