use blstrs::Scalar;
use fff::{Field, PrimeField};
use groth16_aggregation::field::Fr;
use groth16_aggregation::poly::{
    divide_by_linear, evaluate, polynomial_coefficients_from_transcript,
    polynomial_evaluation_product_form_from_transcript,
};
use groth16_aggregation::transcript::{derive_challenge, derive_challenge_pair, fr_from_u128};
use rand_core::SeedableRng;
use rand_xorshift::XorShiftRng;
use sha2::{Digest, Sha256};

fn f(x: u64) -> Fr {
    Fr::from_u64(x)
}

#[test]
fn two_challenges_evaluate_both_ways() {
    // (1 + 2 * 35) (1 + 3 * 35^2) with r = 5 and z = 7
    let transcript = vec![f(2), f(3)];
    let product = polynomial_evaluation_product_form_from_transcript(&transcript, &f(7), &f(5));
    assert_eq!(product, f(71 * 3676));
    let coeffs = polynomial_coefficients_from_transcript(&transcript, &f(5));
    // 1 + 2 r X + 3 r^2 X^2 + 6 r^3 X^3
    assert_eq!(coeffs, vec![f(1), f(10), f(75), f(750)]);
    assert_eq!(evaluate(&coeffs, &f(7)), product);
    assert_eq!(product, f(260996));
}

#[test]
fn coefficients_agree_with_product_on_random_points() {
    let mut rng = XorShiftRng::from_seed([
        0x59, 0x62, 0xbe, 0x5d, 0x76, 0x3d, 0x31, 0x8d, 0x17, 0xdb, 0x37, 0x32, 0x54, 0x06, 0xbc,
        0xe5,
    ]);
    let mut random = || Fr::from_limbs(Scalar::random(&mut rng).into_repr().0).unwrap();
    for len in 0..6 {
        let transcript: Vec<Fr> = (0..len).map(|_| random()).collect();
        let (z, r) = (random(), random());
        let coeffs = polynomial_coefficients_from_transcript(&transcript, &r);
        assert_eq!(coeffs.len(), 1 << len);
        assert_eq!(
            evaluate(&coeffs, &z),
            polynomial_evaluation_product_form_from_transcript(&transcript, &z, &r)
        );
    }
}

#[test]
fn empty_transcript_is_the_constant_one() {
    let none: Vec<Fr> = Vec::new();
    assert_eq!(polynomial_evaluation_product_form_from_transcript(&none, &f(9), &f(4)), f(1));
    assert_eq!(polynomial_coefficients_from_transcript(&none, &f(4)), vec![f(1)]);
    assert_eq!(evaluate(&none, &f(3)), f(0));
}

#[test]
fn division_by_a_linear_factor() {
    // X^3 + 2 X^2 + 3 X + 4 = (X - 5) (X^2 + 7 X + 38) + 194
    let coeffs = vec![f(4), f(3), f(2), f(1)];
    assert_eq!(divide_by_linear(&coeffs, &f(5)), vec![f(38), f(7), f(1)]);
    assert_eq!(evaluate(&coeffs, &f(5)), f(194));
    assert_eq!(divide_by_linear(&vec![f(4)], &f(5)), Vec::<Fr>::new());
    assert_eq!(divide_by_linear(&Vec::new(), &f(5)), Vec::<Fr>::new());
    // the quotient times (X - z) plus the value at z gives the polynomial back, at any point
    let x = f(11);
    let q = divide_by_linear(&coeffs, &f(5));
    assert_eq!(
        evaluate(&q, &x).mul(&x.sub(&f(5))).add(&evaluate(&coeffs, &f(5))),
        evaluate(&coeffs, &x)
    );
}

#[test]
fn scalar_from_digest_reads_sixteen_bytes_big_endian() {
    let mut bytes = [0u8; 32];
    bytes[15] = 1;
    assert_eq!(fr_from_u128(&bytes), f(1));
    bytes[15] = 0;
    bytes[7] = 2;
    assert_eq!(fr_from_u128(&bytes).to_limbs(), [0, 2, 0, 0]);
    bytes[0] = 0x80;
    bytes[8] = 0x01;
    bytes[16] = 0xff;
    assert_eq!(fr_from_u128(&bytes).to_limbs(), [0x0100000000000000, 0x8000000000000002, 0, 0]);
}

#[test]
fn challenge_is_the_hash_of_nonce_and_data() {
    let data = b"what has been committed to".to_vec();
    let mut input = 0u64.to_be_bytes().to_vec();
    input.extend_from_slice(&data);
    let digest = Sha256::digest(&input);
    let expected = fr_from_u128(&digest[..]);
    let c = derive_challenge(&data).unwrap();
    assert_eq!(c, expected);
    assert!(!c.is_zero());
    assert_eq!(c.to_limbs()[2..], [0, 0]);
    let (again, inverse) = derive_challenge_pair(&data).unwrap();
    assert_eq!(again, c);
    assert_eq!(inverse.mul(&c), Fr::one());
    assert_ne!(derive_challenge(&b"something else".to_vec()).unwrap(), c);
    assert_eq!(derive_challenge(&data).unwrap(), c);
}
