use blstrs::{G1Affine, G2Affine, Scalar};
use groth16_aggregation::accumulator::PairingTuple;
use fff::{Field, PrimeField};
use groth16_aggregation::commit::{pair, single_g1};
use groth16_aggregation::curve::{Fqk, G1, G2};
use groth16_aggregation::error::SynthesisError;
use groth16_aggregation::field::Fr;
use groth16_aggregation::kzg::{verify_kzg_opening_g1, verify_kzg_opening_g2};
use groth16_aggregation::proofs::{AggregateProof, PreparedVerifyingKey, Proof};
use groth16_aggregation::prove::aggregate_proofs;
use groth16_aggregation::rescale::rescale;
use groth16_aggregation::srs::{structured_scalar_power, VerifierSRS, SRS};
use groth16_aggregation::transcript::derive_challenge;
use groth16_aggregation::verify::{
    derive_randomness, sum_of_powers, verify_aggregate_proof, verify_left, verify_middle,
    verify_right,
};
use groth16_aggregation::verify_mipp::verify_mipp;
use groth16_aggregation::verify_tipp::{gipa_verify_tipp, verify_tipp};
use groupy::CurveAffine;
use rand_core::SeedableRng;
use rand_xorshift::XorShiftRng;

fn rng() -> XorShiftRng {
    XorShiftRng::from_seed([
        0x59, 0x62, 0xbe, 0x5d, 0x76, 0x3d, 0x31, 0x8d, 0x17, 0xdb, 0x37, 0x32, 0x54, 0x06, 0xbc,
        0xe5,
    ])
}

fn random_fr(rng: &mut XorShiftRng) -> Fr {
    Fr::from_limbs(Scalar::random(rng).into_repr().0).unwrap()
}

fn g() -> G1 {
    G1::from_compressed(&G1Affine::one().to_compressed()).unwrap()
}

fn h() -> G2 {
    G2::from_compressed(&G2Affine::one().to_compressed()).unwrap()
}

/// A reference string for batches of `n`, made with known secrets.
fn setup(n: usize, rng: &mut XorShiftRng) -> (SRS, VerifierSRS) {
    let alpha = random_fr(rng);
    let beta = random_fr(rng);
    let alpha_powers = structured_scalar_power(2 * n + 1, &alpha);
    let beta_powers = structured_scalar_power(2 * n + 1, &beta);
    let srs = SRS {
        n,
        g_alpha_powers: (1..=n).map(|i| g().scale(&alpha_powers[n + i])).collect(),
        g_beta_powers: (1..=n).map(|i| g().scale(&beta_powers[n + i])).collect(),
        h_alpha_powers: (1..=n).map(|i| h().scale(&alpha_powers[i])).collect(),
        h_beta_powers: (1..=n).map(|i| h().scale(&beta_powers[i])).collect(),
    };
    let vsrs = VerifierSRS {
        g: g(),
        h: h(),
        g_alpha: g().scale(&alpha),
        g_beta: g().scale(&beta),
        h_alpha: h().scale(&alpha),
        h_beta: h().scale(&beta),
        g_alpha_n1: g().scale(&alpha_powers[n + 1]),
        g_beta_n1: g().scale(&beta_powers[n + 1]),
    };
    (srs, vsrs)
}

/// The secrets of a Groth16 setup, with which valid proofs can be made without a circuit.
struct Trapdoor {
    alpha: Fr,
    beta: Fr,
    gamma: Fr,
    delta: Fr,
    ic: Vec<Fr>,
}

fn groth16_setup(inputs: usize, rng: &mut XorShiftRng) -> (Trapdoor, PreparedVerifyingKey) {
    let t = Trapdoor {
        alpha: random_fr(rng),
        beta: random_fr(rng),
        gamma: random_fr(rng),
        delta: random_fr(rng),
        ic: (0..=inputs).map(|_| random_fr(rng)).collect(),
    };
    let pvk = PreparedVerifyingKey {
        alpha_g1: g().scale(&t.alpha),
        beta_g2: h().scale(&t.beta),
        gamma_g2: h().scale(&t.gamma),
        delta_g2: h().scale(&t.delta),
        ic: t.ic.iter().map(|s| g().scale(s)).collect(),
    };
    (t, pvk)
}

/// A proof that meets `e(A, B) = e(alpha, beta) e(ic(x), gamma) e(C, delta)`.
fn forge(t: &Trapdoor, inputs: &[Fr], rng: &mut XorShiftRng) -> Proof {
    let a = random_fr(rng);
    let b = random_fr(rng);
    let mut ic = t.ic[0];
    for (x, s) in inputs.iter().zip(t.ic[1..].iter()) {
        ic = ic.add(&x.mul(s));
    }
    let c = a
        .mul(&b)
        .sub(&t.alpha.mul(&t.beta))
        .sub(&t.gamma.mul(&ic))
        .mul(&t.delta.inverse().unwrap());
    Proof { a: g().scale(&a), b: h().scale(&b), c: g().scale(&c) }
}

struct Batch {
    srs: SRS,
    vsrs: VerifierSRS,
    pvk: PreparedVerifyingKey,
    inputs: Vec<Vec<Fr>>,
    proofs: Vec<Proof>,
}

fn batch(n: usize, inputs: Vec<Vec<Fr>>) -> Batch {
    let mut rng = rng();
    let (srs, vsrs) = setup(n, &mut rng);
    let (t, pvk) = groth16_setup(inputs[0].len(), &mut rng);
    let proofs = inputs.iter().map(|x| forge(&t, x, &mut rng)).collect();
    Batch { srs, vsrs, pvk, inputs, proofs }
}

fn squares(n: u64) -> Vec<Vec<Fr>> {
    (1..=n).map(|x| vec![Fr::from_u64(x * x)]).collect()
}

fn aggregate(b: &Batch) -> AggregateProof {
    aggregate_proofs(&b.srs, &b.proofs).unwrap()
}

fn verify(b: &Batch, proof: &AggregateProof) -> Result<bool, SynthesisError> {
    verify_aggregate_proof(&b.vsrs, &b.pvk, &b.inputs, proof)
}

#[test]
fn honest_batches_verify() {
    for k in 1..=3 {
        let n = 1usize << k;
        let b = batch(n, squares(n as u64));
        assert_eq!(verify(&b, &aggregate(&b)), Ok(true), "batch of {}", n);
    }
}

#[test]
fn batch_of_two_with_input_one() {
    let b = batch(2, vec![vec![Fr::one()], vec![Fr::one()]]);
    let mut proof = aggregate(&b);
    assert_eq!(verify(&b, &proof), Ok(true));
    // a changed commitment to C changes r and all that follows
    proof.com_c.0 = proof.com_c.0.mul(&proof.com_c.1);
    assert_eq!(verify(&b, &proof), Ok(false));
}

#[test]
fn batch_of_four_squares() {
    let b = batch(4, squares(4));
    let proof = aggregate(&b);
    assert_eq!(verify(&b, &proof), Ok(true));
    assert_eq!(proof.proof_ab.gipa.comms.len(), 2);
    assert_eq!(proof.proof_ab.gipa.z_vec.len(), 2);
    assert_eq!(proof.proof_c.gipa.comms.len(), 2);
}

#[test]
fn openings_need_the_challenges_last_first() {
    let b = batch(4, squares(4));
    let proof = aggregate(&b);
    let mut input = Vec::new();
    proof.com_ab.0.write_to(&mut input);
    proof.com_ab.1.write_to(&mut input);
    proof.com_c.0.write_to(&mut input);
    proof.com_c.1.write_to(&mut input);
    let r = derive_challenge(&input).unwrap();
    let (_, _, challenges, challenges_inv) =
        gipa_verify_tipp(&proof.com_ab, &proof.ip_ab, &proof.proof_ab.gipa).unwrap();
    // what the hash gave is the inverse challenge, of 128 bits; the challenge is its inverse
    for (c, c_inv) in challenges.iter().zip(challenges_inv.iter()) {
        assert_eq!(c_inv.to_limbs()[2..], [0, 0]);
        assert!(!c_inv.is_zero());
        assert_eq!(c.mul(c_inv), Fr::one());
        assert_ne!(c.to_limbs()[2..], [0, 0]);
    }
    let gipa = &proof.proof_ab.gipa;
    let mut input = Vec::new();
    challenges.last().unwrap().write_to(&mut input);
    gipa.final_vkey.0.write_to(&mut input);
    gipa.final_vkey.1.write_to(&mut input);
    gipa.final_wkey.0.write_to(&mut input);
    gipa.final_wkey.1.write_to(&mut input);
    let z = derive_challenge(&input).unwrap();
    let r_inv = r.inverse().unwrap();
    let reversed: Vec<Fr> = challenges.iter().rev().cloned().collect();
    let reversed_inv: Vec<Fr> = challenges_inv.iter().rev().cloned().collect();
    let open_v = |t: &Vec<Fr>| {
        verify_kzg_opening_g2(
            &b.vsrs,
            &gipa.final_vkey,
            &proof.proof_ab.vkey_opening,
            t,
            &r_inv,
            &z,
        )
        .verify()
    };
    let open_w = |t: &Vec<Fr>| {
        verify_kzg_opening_g1(
            &b.vsrs,
            &gipa.final_wkey,
            &proof.proof_ab.wkey_opening,
            t,
            &Fr::one(),
            &z,
        )
        .verify()
    };
    assert!(open_v(&reversed_inv));
    assert!(open_w(&reversed));
    assert!(!open_v(&challenges_inv));
    assert!(!open_w(&challenges));
}

#[test]
fn swapped_proofs_fail_both_batches() {
    let mut first = batch(8, squares(8));
    let mut second = batch(8, (1..=8).map(|x| vec![Fr::from_u64(x + 100)]).collect());
    second.srs = first.srs.clone();
    second.vsrs = first.vsrs;
    let mut rng = rng();
    for _ in 0..50 {
        random_fr(&mut rng);
    }
    let (t, pvk) = groth16_setup(1, &mut rng);
    for b in [&mut first, &mut second] {
        b.pvk = pvk.clone();
        b.proofs = b.inputs.iter().map(|x| forge(&t, x, &mut rng)).collect();
    }
    assert_eq!(verify(&first, &aggregate(&first)), Ok(true));
    assert_eq!(verify(&second, &aggregate(&second)), Ok(true));
    std::mem::swap(&mut first.proofs[3], &mut second.proofs[3]);
    assert_eq!(verify(&first, &aggregate(&first)), Ok(false));
    assert_eq!(verify(&second, &aggregate(&second)), Ok(false));
}

#[test]
fn missing_opening_is_rejected() {
    let b = batch(16, squares(16));
    let mut proof = aggregate(&b);
    assert_eq!(verify(&b, &proof), Ok(true));
    proof.proof_ab.vkey_opening.0 = G2::identity();
    assert_eq!(verify(&b, &proof), Ok(false));
}

#[test]
fn every_part_of_the_aggregate_is_checked() {
    let b = batch(4, squares(4));
    let changed = |change: &dyn Fn(&mut AggregateProof)| {
        let mut proof = aggregate(&b);
        change(&mut proof);
        verify(&b, &proof)
    };
    assert_eq!(changed(&|_| ()), Ok(true));
    assert_eq!(changed(&|p| p.com_ab.0 = p.com_ab.1), Ok(false));
    assert_eq!(changed(&|p| p.ip_ab = p.ip_ab.mul(&p.ip_ab)), Ok(false));
    assert_eq!(changed(&|p| p.agg_c = p.agg_c.add(&g())), Ok(false));
    assert_eq!(changed(&|p| p.proof_ab.gipa.final_a = g()), Ok(false));
    assert_eq!(changed(&|p| p.proof_ab.gipa.final_b = h()), Ok(false));
    assert_eq!(changed(&|p| p.proof_ab.gipa.final_vkey.1 = h()), Ok(false));
    assert_eq!(changed(&|p| p.proof_ab.gipa.final_wkey.0 = g()), Ok(false));
    assert_eq!(changed(&|p| p.proof_ab.gipa.z_vec[1].0 = p.ip_ab), Ok(false));
    assert_eq!(changed(&|p| p.proof_ab.gipa.comms[0].1 .1 = p.ip_ab), Ok(false));
    assert_eq!(changed(&|p| p.proof_ab.wkey_opening.1 = g()), Ok(false));
    assert_eq!(changed(&|p| p.proof_c.gipa.final_c = g()), Ok(false));
    assert_eq!(changed(&|p| p.proof_c.gipa.final_r = Fr::one()), Ok(false));
    assert_eq!(changed(&|p| p.proof_c.gipa.z_vec[0].1 = g()), Ok(false));
    assert_eq!(changed(&|p| p.proof_c.vkey_opening.0 = h()), Ok(false));
    assert_eq!(changed(&|p| { p.proof_c.gipa.comms.pop(); }), Ok(false));
}

#[test]
fn wrong_public_inputs_are_rejected() {
    let mut b = batch(4, squares(4));
    let proof = aggregate(&b);
    b.inputs[2][0] = Fr::from_u64(10);
    assert_eq!(verify(&b, &proof), Ok(false));
}

#[test]
fn reordered_batch_gives_another_aggregate_that_verifies() {
    let mut b = batch(4, squares(4));
    let first = aggregate(&b);
    b.proofs.swap(0, 2);
    let second = aggregate(&b);
    assert_ne!(first, second);
    // the public inputs must be put in the same order
    assert_eq!(verify(&b, &second), Ok(false));
    b.inputs.swap(0, 2);
    assert_eq!(verify(&b, &second), Ok(true));
    assert_eq!(verify(&b, &first), Ok(false));
}

#[test]
fn aggregation_is_deterministic() {
    let b = batch(4, squares(4));
    assert_eq!(aggregate(&b), aggregate(&b));
}

#[test]
fn invalid_batch_sizes_are_rejected() {
    for n in [1usize, 3, 6] {
        let b = batch(n, squares(n as u64));
        assert_eq!(aggregate_proofs(&b.srs, &b.proofs), Err(SynthesisError::MalformedProofs));
    }
    let b = batch(4, squares(4));
    assert_eq!(aggregate_proofs(&b.srs, &Vec::new()), Err(SynthesisError::MalformedSrs));
    let proof = aggregate(&b);
    let three = b.inputs[..3].to_vec();
    assert_eq!(
        verify_aggregate_proof(&b.vsrs, &b.pvk, &three, &proof),
        Err(SynthesisError::MalformedProofs)
    );
    assert_eq!(
        verify_aggregate_proof(&b.vsrs, &b.pvk, &Vec::new(), &proof),
        Err(SynthesisError::MalformedProofs)
    );
}

#[test]
fn reference_string_of_another_size_is_rejected() {
    let b = batch(4, squares(4));
    let (other, _) = setup(8, &mut rng());
    assert_eq!(aggregate_proofs(&other, &b.proofs), Err(SynthesisError::MalformedSrs));
    let mut short = b.srs.clone();
    short.h_beta_powers.pop();
    assert_eq!(aggregate_proofs(&short, &b.proofs), Err(SynthesisError::MalformedSrs));
    // the keys fit, but the string claims another size for its powers
    let mut claims = b.srs.clone();
    claims.n = 8;
    assert_eq!(aggregate_proofs(&claims, &b.proofs), Err(SynthesisError::MalformedSrs));
}

#[test]
fn inputs_must_fit_the_verifying_key() {
    let b = batch(2, squares(2));
    let proof = aggregate(&b);
    let two_each = vec![vec![Fr::one(), Fr::one()], vec![Fr::one(), Fr::one()]];
    assert_eq!(
        verify_aggregate_proof(&b.vsrs, &b.pvk, &two_each, &proof),
        Err(SynthesisError::MalformedVerifyingKey)
    );
    let uneven = vec![vec![Fr::one()], vec![]];
    assert_eq!(
        verify_aggregate_proof(&b.vsrs, &b.pvk, &uneven, &proof),
        Err(SynthesisError::MalformedVerifyingKey)
    );
}

#[test]
fn scaling_key_and_vector_keeps_the_commitment() {
    let b = batch(4, squares(4));
    let (vkey, wkey) = b.srs.get_commitment_keys();
    let a: Vec<G1> = b.proofs.iter().map(|p| p.a).collect();
    let bs: Vec<G2> = b.proofs.iter().map(|p| p.b).collect();
    let r = Fr::from_u64(0x1234_5678_9abc);
    let r_vec = structured_scalar_power(4, &r);
    let r_inv: Vec<Fr> = r_vec.iter().map(|x| x.inverse().unwrap()).collect();
    assert_eq!(r_inv, structured_scalar_power(4, &r.inverse().unwrap()));
    let a_r: Vec<G1> = a.iter().zip(r_vec.iter()).map(|(p, s)| p.scale(s)).collect();
    let scaled = vkey.scale(&r_inv).unwrap();
    assert_ne!(scaled, vkey);
    assert_eq!(pair(&scaled, &wkey, &a_r, &bs), pair(&vkey, &wkey, &a, &bs));
    assert_ne!(pair(&vkey, &wkey, &a_r, &bs), pair(&vkey, &wkey, &a, &bs));
    let (rescaled_a, powers, rescaled_key) = rescale(&a, &vkey, &r).unwrap();
    assert_eq!((rescaled_a, powers, rescaled_key), (a_r.clone(), r_vec.clone(), scaled.clone()));
    assert_eq!(rescale(&a[..2].to_vec(), &vkey, &r), Err(SynthesisError::MalformedSrs));
    let c: Vec<G1> = b.proofs.iter().map(|p| p.c).collect();
    assert_ne!(single_g1(&vkey, &c), single_g1(&scaled, &c));
    assert_eq!(pair(&vkey, &wkey, &a, &bs[..3].to_vec()), Err(SynthesisError::MalformedProofs));
    assert_eq!(
        pair(&vkey, &wkey, &a[..2].to_vec(), &bs[..2].to_vec()),
        Err(SynthesisError::MalformedSrs)
    );
    assert_eq!(single_g1(&vkey, &c[..2].to_vec()), Err(SynthesisError::MalformedSrs));
}

#[test]
fn checks_merge_to_the_answer_in_any_order() {
    let b = batch(4, squares(4));
    let proof = aggregate(&b);
    let r = derive_randomness(&proof.com_ab, &proof.com_c).unwrap();
    let tipp = verify_tipp(&b.vsrs, &proof.com_ab, &proof.ip_ab, &proof.proof_ab, &r).unwrap();
    let mipp = verify_mipp(&b.vsrs, &proof.com_c, &proof.agg_c, &proof.proof_c).unwrap();
    let left = verify_left(&b.pvk, &r, 4);
    let right = verify_right(&b.pvk, &proof.agg_c);
    let middle = verify_middle(&b.pvk, &b.inputs, &r).unwrap();
    // the two arguments hold on their own, the parts of the summed equation only together
    assert!(tipp.verify() && mipp.verify());
    assert!(!left.verify() && !right.verify() && !middle.verify());
    let merge = |parts: &[&PairingTuple]| {
        let mut acc = PairingTuple::from_pair(Fqk::one(), proof.ip_ab);
        for part in parts {
            acc.merge(part);
        }
        acc.verify()
    };
    assert!(merge(&[&tipp, &mipp, &left, &right, &middle]));
    assert!(merge(&[&middle, &right, &left, &mipp, &tipp]));
    assert!(merge(&[&left, &right, &middle]));
    assert!(!merge(&[&tipp, &mipp, &left, &right]));
    assert!(!merge(&[&tipp, &mipp, &left, &middle, &middle]));
    // a check that failed cannot be merged away
    let invalid = PairingTuple::new_invalid();
    assert!(!invalid.verify());
    assert!(!merge(&[&tipp, &invalid, &mipp, &left, &right, &middle]));
    let mut from_invalid = PairingTuple::new_invalid();
    from_invalid.merge(&PairingTuple::new());
    assert!(!from_invalid.verify());
    assert!(PairingTuple::new().verify());
    assert_eq!(
        verify_middle(&b.pvk, &vec![vec![]; 4], &r),
        Err(SynthesisError::MalformedVerifyingKey)
    );
}

#[test]
fn sum_of_powers_is_the_geometric_sum() {
    let f = Fr::from_u64;
    assert_eq!(sum_of_powers(&f(3), 5), f(1 + 3 + 9 + 27 + 81));
    assert_eq!(sum_of_powers(&f(1), 8), f(8));
    assert_eq!(sum_of_powers(&f(0), 8), f(1));
    assert_eq!(sum_of_powers(&f(7), 0), f(0));
    assert_eq!(structured_scalar_power(4, &f(3)), vec![f(1), f(3), f(9), f(27)]);
    assert_eq!(structured_scalar_power(0, &f(3)), Vec::<Fr>::new());
}

#[test]
fn one_changed_byte_is_rejected() {
    let b = batch(2, squares(2));
    let flipped = |x: &Fqk, at: usize| {
        let mut bytes = x.to_bytes();
        bytes[at] ^= 1;
        Fqk::from_bytes(&bytes).unwrap()
    };
    for at in [0usize, 100, 300, 575 - 7] {
        let mut proof = aggregate(&b);
        proof.ip_ab = flipped(&proof.ip_ab, at);
        assert_eq!(verify(&b, &proof), Ok(false));
        let mut proof = aggregate(&b);
        proof.com_ab.1 = flipped(&proof.com_ab.1, at);
        assert_eq!(verify(&b, &proof), Ok(false));
        let mut proof = aggregate(&b);
        proof.proof_c.gipa.comms[0].0 .0 = flipped(&proof.proof_c.gipa.comms[0].0 .0, at);
        assert_eq!(verify(&b, &proof), Ok(false));
    }
    let mut proof = aggregate(&b);
    let mut limbs = proof.proof_c.gipa.final_r.to_limbs();
    limbs[0] ^= 1;
    proof.proof_c.gipa.final_r = Fr::from_limbs(limbs).unwrap();
    assert_eq!(verify(&b, &proof), Ok(false));
}

#[test]
fn batch_of_thirty_two_verifies() {
    let b = batch(32, squares(32));
    let proof = aggregate(&b);
    assert_eq!(proof.proof_ab.gipa.comms.len(), 5);
    assert_eq!(verify(&b, &proof), Ok(true));
}

#[test]
fn batch_of_sixty_four_verifies() {
    let b = batch(64, (1..=64).map(|x| vec![Fr::from_u64(x), Fr::from_u64(x + 1)]).collect());
    let proof = aggregate(&b);
    assert_eq!(proof.proof_c.gipa.z_vec.len(), 6);
    assert_eq!(verify(&b, &proof), Ok(true));
}
