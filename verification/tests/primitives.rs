use blstrs::{Fp12, G1Affine, G2Affine};
use groth16_aggregation::curve::{miller_loop_of, Fqk, G1, G2};
use groth16_aggregation::error::SynthesisError;
use groth16_aggregation::field::Fr;
use groth16_aggregation::groth16::{assemble_proof, Answers, VerifyingKey};
use groupy::CurveAffine;

fn g1_generator() -> G1 {
    G1::from_compressed(&G1Affine::one().to_compressed()).unwrap()
}

fn g2_generator() -> G2 {
    G2::from_compressed(&G2Affine::one().to_compressed()).unwrap()
}

#[test]
fn scalar_arithmetic_is_modular() {
    let a = Fr::from_u64(7);
    let b = Fr::from_u64(5);
    assert_eq!(a.add(&b), Fr::from_u64(12));
    assert_eq!(a.mul(&b), Fr::from_u64(35));
    assert_eq!(a.sub(&b), Fr::from_u64(2));
    assert_eq!(b.sub(&a).add(&Fr::from_u64(2)), Fr::zero());
    assert_eq!(a.pow(3), Fr::from_u64(343));
    let inv = a.inverse().unwrap();
    assert_eq!(a.mul(&inv), Fr::one());
    assert!(Fr::zero().inverse().is_none());
    // the modulus itself is not a scalar, the modulus less one is
    let m = [0xffffffff00000001u64, 0x53bda402fffe5bfe, 0x3339d80809a1d805, 0x73eda753299d7d48];
    assert!(Fr::from_limbs(m).is_none());
    let top = Fr::from_limbs([m[0] - 1, m[1], m[2], m[3]]).unwrap();
    assert_eq!(top.add(&Fr::one()), Fr::zero());
    assert_eq!(Fr::one().neg(), top);
}

#[test]
fn scalar_encoding_is_little_endian_limbs() {
    let x = Fr::from_limbs([0x0807060504030201, 0x11, 0, 0x0100000000000000]).unwrap();
    let mut out = vec![0xaau8];
    x.write_to(&mut out);
    assert_eq!(out.len(), 33);
    assert_eq!(&out[1..9], &[1, 2, 3, 4, 5, 6, 7, 8]);
    assert_eq!(out[9], 0x11);
    assert_eq!(out[32], 1);
}

#[test]
fn group_operations_agree() {
    let g = g1_generator();
    let two = g.add(&g);
    assert_eq!(two, g.scale(&Fr::from_u64(2)));
    assert_eq!(two.sub(&g), g);
    assert_eq!(g.add(&g.neg()), G1::identity());
    assert_eq!(G1::identity().to_compressed()[0], 0xc0);
    let h = g2_generator();
    assert_eq!(h.add(&h), h.scale(&Fr::from_u64(2)));
    assert_eq!(h.add(&h.neg()), G2::identity());
    assert!(G1::from_compressed(&[0xffu8; 48]).is_none());
}

#[test]
fn pairing_is_bilinear_on_samples() {
    let g = g1_generator();
    let h = g2_generator();
    let s = Fr::from_u64(11);
    let e = miller_loop_of(&vec![g], &vec![h]).final_exponentiation();
    let left = miller_loop_of(&vec![g.scale(&s)], &vec![h]).final_exponentiation();
    let right = miller_loop_of(&vec![g], &vec![h.scale(&s)]).final_exponentiation();
    assert_eq!(left, right);
    assert_eq!(left, e.pow(&s));
    assert_ne!(e, Fqk::one());
    assert_eq!(e.mul(&e.inverse().unwrap()), Fqk::one());
    assert_eq!(Fqk::one().to_bytes()[0], 1);
    assert!(Fqk::one().to_bytes()[1..].iter().all(|b| *b == 0));
    let both = miller_loop_of(&vec![g, g], &vec![h, h]).final_exponentiation();
    assert_eq!(both, e.mul(&e));
}

#[test]
fn encodings_are_checked() {
    assert!(G2::from_compressed(&[0xffu8; 96]).is_none());
    assert!(Fqk::from_bytes(&[0xffu8; 576]).is_none());
    let g = g1_generator();
    let h = g2_generator();
    assert_eq!(G1::from_compressed(&g.to_compressed()), Some(g));
    assert_eq!(G2::from_compressed(&h.to_compressed()), Some(h));
    let e = miller_loop_of(&vec![g], &vec![h]);
    assert_eq!(Fqk::from_bytes(&e.to_bytes()), Some(e));
    assert_ne!(e.final_exponentiation(), e);
    // all zeros is read as the point at infinity, whose canonical encoding is another
    assert_eq!(G1::from_compressed(&[0u8; 48]), Some(G1::identity()));
    assert_ne!(G1::identity().to_compressed(), [0u8; 48]);
    let mut written = Vec::new();
    g.write_to(&mut written);
    h.write_to(&mut written);
    e.write_to(&mut written);
    assert_eq!(written.len(), 48 + 96 + 576);
    assert_eq!(&written[..48], &g.to_compressed()[..]);
    assert_eq!(&written[144..], &e.to_bytes()[..]);
    assert!(g.is_equal(&g) && !g.is_equal(&g.neg()));
    assert!(h.is_equal(&h) && !h.is_equal(&h.neg()));
    assert!(e.is_equal(&e) && !e.is_equal(&Fqk::one()));
    assert_eq!(h.sub(&h), G2::identity());
}

#[test]
fn proof_is_assembled_from_the_answers() {
    let g = g1_generator();
    let h = g2_generator();
    let f = Fr::from_u64;
    let (alpha, beta, delta) = (f(3), f(5), f(7));
    let vk = VerifyingKey {
        alpha_g1: g.scale(&alpha),
        beta_g1: g.scale(&beta),
        beta_g2: h.scale(&beta),
        delta_g1: g.scale(&delta),
        delta_g2: h.scale(&delta),
    };
    let answers = Answers {
        a_inputs: g.scale(&f(11)),
        a_aux: g.scale(&f(13)),
        b_g1_inputs: g.scale(&f(17)),
        b_g1_aux: g.scale(&f(19)),
        b_g2_inputs: h.scale(&f(17)),
        b_g2_aux: h.scale(&f(19)),
        h: g.scale(&f(23)),
        l: g.scale(&f(29)),
    };
    let (r, s) = (f(31), f(37));
    let proof = assemble_proof(&vk, &r, &s, &answers).unwrap();
    // r delta + alpha + A, s delta + beta + B, r s delta + s alpha + r beta + s A + r B + H + L
    assert_eq!(proof.a, g.scale(&f(31 * 7 + 3 + 24)));
    assert_eq!(proof.b, h.scale(&f(37 * 7 + 5 + 36)));
    assert_eq!(
        proof.c,
        g.scale(&f(31 * 37 * 7 + 37 * 3 + 31 * 5 + 37 * 24 + 31 * 36 + 23 + 29))
    );
    let mut subverted = vk;
    subverted.delta_g1 = G1::identity();
    assert_eq!(
        assemble_proof(&subverted, &r, &s, &answers),
        Err(SynthesisError::UnexpectedIdentity)
    );
    subverted = vk;
    subverted.delta_g2 = G2::identity();
    assert_eq!(
        assemble_proof(&subverted, &r, &s, &answers),
        Err(SynthesisError::UnexpectedIdentity)
    );
}

#[test]
fn zeros_decode_to_the_identity_of_g2() {
    assert_eq!(G2::from_compressed(&[0u8; 96]), Some(G2::identity()));
    assert_eq!(G2::identity().to_compressed()[0], 0xc0);
    assert!(G2::identity().to_compressed()[1..].iter().all(|b| *b == 0));
}

fn with_coefficient(k: usize, limbs: [u64; 6]) -> [u8; 576] {
    let mut bytes = [0u8; 576];
    for (i, limb) in limbs.iter().enumerate() {
        bytes[48 * k + 8 * i..48 * k + 8 * i + 8].copy_from_slice(&limb.to_le_bytes());
    }
    bytes
}

#[test]
fn target_field_elements_have_reduced_coefficients() {
    // the order of the base field, least significant limb first
    let p = [
        0xb9feffffffffaaabu64,
        0x1eabfffeb153ffff,
        0x6730d2a0f6b0f624,
        0x64774b84f38512bf,
        0x4b1ba7b6434bacd7,
        0x1a0111ea397fe69a,
    ];
    let mut samples = vec![[0u8; 576], [0xffu8; 576], Fqk::one().to_bytes()];
    for k in [0usize, 5, 11] {
        samples.push(with_coefficient(k, p));
        for i in 0..6 {
            let mut below = p;
            below[i] -= 1;
            samples.push(with_coefficient(k, below));
            let mut above = p;
            above[i] += 1;
            samples.push(with_coefficient(k, above));
        }
    }
    for bytes in samples.iter() {
        // the library accepts what the curve library reads, and nothing else
        assert_eq!(
            Fqk::from_bytes(bytes).is_some(),
            bincode::deserialize::<Fp12>(&bytes[..]).is_ok()
        );
    }
    assert!(Fqk::from_bytes(&with_coefficient(3, p)).is_none());
    let mut below = p;
    below[0] -= 1;
    assert!(Fqk::from_bytes(&with_coefficient(3, below)).is_some());
    let mut high = p;
    high[5] -= 1;
    high[0] = u64::MAX;
    assert!(Fqk::from_bytes(&with_coefficient(11, high)).is_some());
    assert!(Fqk::from_bytes(&[0u8; 576]).is_some());
}
