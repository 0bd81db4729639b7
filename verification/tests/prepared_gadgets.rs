use pairing_gadgets::cs::{ConstraintSystem, Fp2Gadget};
use pairing_gadgets::fp::fp_inv_exec;
use pairing_gadgets::fp2::Fp2Val;
use pairing_gadgets::g1::{G1Gadget, G1Prepared, G1PreparedGadget};
use pairing_gadgets::g2::{G2Gadget, G2Prepared, G2PreparedGadget};
use pairing_gadgets::{CryptoError, CurveParams, SynthesisError, TwistType};

const P: u64 = 13;
const NR: u64 = 2;

fn params(twist: TwistType, bits: Vec<bool>) -> CurveParams {
    CurveParams { modulus: P, nonresidue: NR, twist_type: twist, loop_bits: bits }
}

// the loop scalar 0b1011: top bit dropped, remaining bits 0,1,1 high to low
fn bits_1011() -> Vec<bool> {
    vec![true, false, true, true]
}

fn fq2(c0: u64, c1: u64) -> Fp2Gadget {
    Fp2Gadget { c0, c1 }
}

fn point(x0: u64, y0: u64) -> G2Gadget {
    G2Gadget { x: fq2(x0, 0), y: fq2(y0, 0) }
}

// reference scalar arithmetic modulo P, for subfield points
fn m_add(a: u64, b: u64) -> u64 {
    (a + b) % P
}

fn m_sub(a: u64, b: u64) -> u64 {
    (a + P - b) % P
}

fn m_mul(a: u64, b: u64) -> u64 {
    (a * b) % P
}

fn m_inv(a: u64) -> u64 {
    for c in 1..P {
        if m_mul(a, c) == 1 {
            return c;
        }
    }
    panic!("no inverse");
}

// the native doubling formula: slope 3x²/(2y), then x' = c² - 2x,
// y' = c(x - x') - y; the line coefficients are (cx - y, -c)
fn native_double(x: u64, y: u64) -> (u64, u64, u64, u64) {
    let c = m_mul(m_mul(3, m_mul(x, x)), m_inv(m_mul(2, y)));
    let x3 = m_sub(m_mul(c, c), m_mul(2, x));
    let y3 = m_sub(m_mul(c, m_sub(x, x3)), y);
    let e = m_sub(m_mul(c, x), y);
    let f = m_sub(0, c);
    (x3, y3, e, f)
}

// the native addition formula between (rx, ry) and (qx, qy)
fn native_add(rx: u64, ry: u64, qx: u64, qy: u64) -> (u64, u64, u64, u64) {
    let c = m_mul(m_sub(qy, ry), m_inv(m_sub(qx, rx)));
    let x3 = m_sub(m_mul(c, c), m_add(rx, qx));
    let y3 = m_sub(m_mul(c, m_sub(rx, x3)), ry);
    let g = m_sub(m_mul(c, rx), ry);
    let f = m_sub(0, c);
    (x3, y3, g, f)
}

#[test]
fn fp_inverse_of_two_mod_13() {
    assert_eq!(fp_inv_exec(13, 2), Some(7));
    assert_eq!(fp_inv_exec(13, 0), None);
    assert_eq!(fp_inv_exec(13, 11), Some(6));
}

#[test]
fn scenario_bit_pattern_1011() {
    // three double steps and two add steps, ordered d, d, a, d, a
    let pp = params(TwistType::M, bits_1011());
    let mut cs = ConstraintSystem::new();
    let q = point(1, 4);
    let g = G2PreparedGadget::from_affine(&mut cs, &pp, &q).unwrap();
    assert_eq!(g.ell_coeffs.len(), 5);

    // replay the same schedule by hand through the public step functions
    let mut cs2 = ConstraintSystem::new();
    let mut r = q;
    let two_inv = fp_inv_exec(P, 2).unwrap();
    let mut manual = Vec::new();
    manual.push(G2PreparedGadget::double(&mut cs2, &pp, &mut r, two_inv).unwrap());
    manual.push(G2PreparedGadget::double(&mut cs2, &pp, &mut r, two_inv).unwrap());
    manual.push(G2PreparedGadget::add(&mut cs2, &pp, &mut r, &q).unwrap());
    manual.push(G2PreparedGadget::double(&mut cs2, &pp, &mut r, two_inv).unwrap());
    manual.push(G2PreparedGadget::add(&mut cs2, &pp, &mut r, &q).unwrap());
    assert_eq!(g.ell_coeffs, manual);
}

#[test]
fn zero_point_is_rejected() {
    let pp = params(TwistType::M, bits_1011());
    let mut cs = ConstraintSystem::new();
    let q = point(0, 0);
    let r = G2PreparedGadget::from_affine(&mut cs, &pp, &q);
    assert_eq!(r, Err(SynthesisError::Unsatisfiable));
}

#[test]
fn double_matches_native_formula() {
    let pp = params(TwistType::M, bits_1011());
    let mut cs = ConstraintSystem::new();
    let mut r = point(1, 4);
    let two_inv = fp_inv_exec(P, 2).unwrap();
    let (c0, c1) = G2PreparedGadget::double(&mut cs, &pp, &mut r, two_inv).unwrap();
    let (x3, y3, e, f) = native_double(1, 4);
    assert_eq!((r.x.c0, r.x.c1), (x3, 0));
    assert_eq!((r.y.c0, r.y.c1), (y3, 0));
    assert_eq!((c0.c0, c0.c1), (e, 0));
    assert_eq!((c1.c0, c1.c1), (f, 0));
    // a doubling step records exactly six nonlinear relations
    assert_eq!(cs.num_constraints, 6);
    assert_eq!(cs.num_witness_vars, 6);
    assert_eq!(cs.num_input_vars, 0);
}

#[test]
fn add_matches_native_formula() {
    let pp = params(TwistType::M, bits_1011());
    let mut cs = ConstraintSystem::new();
    let q = point(1, 4);
    // accumulator 2·(1,4) on y² = x³ + 2 over the 13-element field
    let (x2, y2, _, _) = native_double(1, 4);
    let mut r = point(x2, y2);
    let (c0, c1) = G2PreparedGadget::add(&mut cs, &pp, &mut r, &q).unwrap();
    let (x3, y3, g, f) = native_add(x2, y2, 1, 4);
    assert_eq!((r.x.c0, r.y.c0), (x3, y3));
    assert_eq!((c0.c0, c1.c0), (g, f));
    // an addition step records exactly five nonlinear relations
    assert_eq!(cs.num_constraints, 5);
    assert_eq!(cs.num_witness_vars, 5);
}

#[test]
fn add_fails_on_equal_abscissae() {
    let pp = params(TwistType::M, bits_1011());
    let mut cs = ConstraintSystem::new();
    let q = point(1, 4);
    let mut r = point(1, 9);
    let res = G2PreparedGadget::add(&mut cs, &pp, &mut r, &q);
    assert_eq!(res, Err(SynthesisError::NonInvertible));
}

#[test]
fn double_fails_on_zero_ordinate() {
    let pp = params(TwistType::M, bits_1011());
    let mut cs = ConstraintSystem::new();
    let mut r = point(5, 0);
    let two_inv = fp_inv_exec(P, 2).unwrap();
    let res = G2PreparedGadget::double(&mut cs, &pp, &mut r, two_inv);
    assert_eq!(res, Err(SynthesisError::NonInvertible));
}

#[test]
fn twist_type_swaps_coefficient_order() {
    let bits = bits_1011();
    let pp_m = params(TwistType::M, bits.clone());
    let pp_d = params(TwistType::D, bits);
    let q = point(1, 4);
    let mut cs_m = ConstraintSystem::new();
    let mut cs_d = ConstraintSystem::new();
    let gm = G2PreparedGadget::from_affine(&mut cs_m, &pp_m, &q).unwrap();
    let gd = G2PreparedGadget::from_affine(&mut cs_d, &pp_d, &q).unwrap();
    assert_eq!(gm.ell_coeffs.len(), gd.ell_coeffs.len());
    for (m, d) in gm.ell_coeffs.iter().zip(gd.ell_coeffs.iter()) {
        assert_eq!(m.0, d.1);
        assert_eq!(m.1, d.0);
    }
    // and nothing else changes: the circuits have the same shape
    assert_eq!(cs_m, cs_d);
}

#[test]
fn shape_is_independent_of_the_point() {
    let pp = params(TwistType::M, bits_1011());
    let q1 = point(1, 4);
    let q2 = point(1, 9);
    let mut cs1 = ConstraintSystem::new();
    let mut cs2 = ConstraintSystem::new();
    let g1 = G2PreparedGadget::from_affine(&mut cs1, &pp, &q1).unwrap();
    let g2 = G2PreparedGadget::from_affine(&mut cs2, &pp, &q2).unwrap();
    assert_eq!(g1.ell_coeffs.len(), g2.ell_coeffs.len());
    assert_eq!(cs1, cs2);
    // 1 inequality constraint + 3 doubles at 6 + 2 adds at 5
    assert_eq!(cs1.num_constraints, 1 + 3 * 6 + 2 * 5);
}

#[test]
fn serialization_round_trips() {
    let pp = params(TwistType::M, bits_1011());
    let mut cs = ConstraintSystem::new();
    let q = point(1, 4);
    let g = G2PreparedGadget::from_affine(&mut cs, &pp, &q).unwrap();
    let vars_before = cs.num_witness_vars;
    let bytes = g.to_bytes(&mut cs).unwrap();
    assert_eq!(bytes.len(), 32 * g.ell_coeffs.len());
    // decode: eight little-endian bytes per base-field component
    for (i, pair) in g.ell_coeffs.iter().enumerate() {
        let at = |k: usize| {
            let mut chunk = [0u8; 8];
            chunk.copy_from_slice(&bytes[32 * i + 8 * k..32 * i + 8 * (k + 1)]);
            u64::from_le_bytes(chunk)
        };
        assert_eq!((at(0), at(1)), (pair.0.c0, pair.0.c1));
        assert_eq!((at(2), at(3)), (pair.1.c0, pair.1.c1));
    }
    // canonical serialization allocated the byte witnesses
    assert_eq!(cs.num_witness_vars, vars_before + 32 * g.ell_coeffs.len() as u64);
    // the non-unique encoding of reduced witnesses gives the same bytes
    let mut cs2 = ConstraintSystem::new();
    let bytes2 = g.to_non_unique_bytes(&mut cs2).unwrap();
    assert_eq!(bytes, bytes2);
}

#[test]
fn alloc_constant_adds_no_variables() {
    let pp = params(TwistType::M, bits_1011());
    let mut cs = ConstraintSystem::new();
    // projective triples (x, y, z): normalized by the inverse of z
    let t = G2Prepared {
        ell_coeffs: vec![
            (
                Fp2Val { c0: 6, c1: 0 },
                Fp2Val { c0: 10, c1: 0 },
                Fp2Val { c0: 2, c1: 0 },
            ),
        ],
    };
    let g = G2PreparedGadget::alloc_constant(&mut cs, &pp, &t).unwrap();
    assert_eq!(cs, ConstraintSystem::new());
    // 6/2 = 3 and 10/2 = 5 modulo 13
    assert_eq!(g.ell_coeffs[0].0, fq2(3, 0));
    assert_eq!(g.ell_coeffs[0].1, fq2(5, 0));
}

#[test]
fn alloc_constant_rejects_non_invertible_z() {
    let pp = params(TwistType::M, bits_1011());
    let mut cs = ConstraintSystem::new();
    let t = G2Prepared {
        ell_coeffs: vec![
            (
                Fp2Val { c0: 6, c1: 0 },
                Fp2Val { c0: 10, c1: 0 },
                Fp2Val { c0: 0, c1: 0 },
            ),
        ],
    };
    let r = G2PreparedGadget::alloc_constant(&mut cs, &pp, &t);
    assert_eq!(r, Err(SynthesisError::NonInvertible));
}

#[test]
fn witness_allocation_modes_are_unsupported() {
    let mut cs = ConstraintSystem::new();
    let t = G2Prepared { ell_coeffs: Vec::new() };
    assert_eq!(
        G2PreparedGadget::alloc_witness(&mut cs, Some(&t)),
        Err(SynthesisError::Unsupported)
    );
    assert_eq!(
        G2PreparedGadget::alloc_input(&mut cs, Some(&t)),
        Err(SynthesisError::Unsupported)
    );
    let t1 = G1Prepared { x: 3, y: 5 };
    assert_eq!(
        G1PreparedGadget::alloc_witness(&mut cs, Some(&t1)),
        Err(SynthesisError::Unsupported)
    );
    assert_eq!(
        G1PreparedGadget::alloc_input(&mut cs, Some(&t1)),
        Err(SynthesisError::Unsupported)
    );
    assert_eq!(cs, ConstraintSystem::new());
}

#[test]
fn g1_preparation_is_identity() {
    let pp = params(TwistType::M, bits_1011());
    let mut cs = ConstraintSystem::new();
    let t = G1Prepared { x: 3, y: 5 };
    let point = G1Gadget::alloc_constant(&mut cs, pp.modulus, &t);
    let g = G1PreparedGadget::from_affine(&mut cs, &point).unwrap();
    assert_eq!(g.0, point);
    assert_eq!(g.get_value(), Some(t));
    assert_eq!(cs, ConstraintSystem::new());
    let bytes = g.to_bytes(&mut cs).unwrap();
    assert_eq!(bytes.len(), 16);
    let mut lo = [0u8; 8];
    lo.copy_from_slice(&bytes[0..8]);
    let mut hi = [0u8; 8];
    hi.copy_from_slice(&bytes[8..16]);
    assert_eq!((u64::from_le_bytes(lo), u64::from_le_bytes(hi)), (3, 5));
    let mut cs2 = ConstraintSystem::new();
    assert_eq!(g.to_non_unique_bytes(&mut cs2).unwrap(), bytes);
}

#[test]
fn crypto_error_kinds() {
    let e = CryptoError::IncorrectInputLength(7);
    assert_eq!(e, CryptoError::IncorrectInputLength(7));
    assert_ne!(e, CryptoError::NotPrimeOrder);
    match e {
        CryptoError::IncorrectInputLength(n) => assert_eq!(n, 7),
        CryptoError::NotPrimeOrder => unreachable!(),
    }
}
