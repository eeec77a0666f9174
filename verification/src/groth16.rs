//! The last step of a Groth16 prover: a proof is put together from the blinding scalars `r`
//! and `s`, the verifying key, and the results of the prover's multi-exponentiations.
use crate::curve::{
    g1_scaled, g1_sum, g2_scaled, g2_sum, infinity_encoding, G1, G2,
};
use crate::error::SynthesisError;
use crate::field::{fr_mul, Fr};
use crate::proofs::Proof;
use vstd::prelude::*;

verus! {

/// The points of a Groth16 verifying key that the prover blinds a proof with.
#[derive(Clone, Copy, Debug, PartialEq, Eq)]
pub struct VerifyingKey {
    pub alpha_g1: G1,
    pub beta_g1: G1,
    pub beta_g2: G2,
    pub delta_g1: G1,
    pub delta_g2: G2,
}

/// The results of the multi-exponentiations of a prover, for one circuit.
#[derive(Clone, Copy, Debug, PartialEq, Eq)]
pub struct Answers {
    /// The `A` query over the inputs, and over the auxiliary variables.
    pub a_inputs: G1,
    pub a_aux: G1,
    /// The `B` query in G1 over the inputs, and over the auxiliary variables.
    pub b_g1_inputs: G1,
    pub b_g1_aux: G1,
    /// The `B` query in G2 over the inputs, and over the auxiliary variables.
    pub b_g2_inputs: G2,
    pub b_g2_aux: G2,
    /// The quotient polynomial over the `H` query.
    pub h: G1,
    /// The auxiliary variables over the `L` query.
    pub l: G1,
}

/// Whether a point of the key that must not be the identity is the identity.
pub open spec fn has_identity(vk: VerifyingKey) -> bool {
    vk.delta_g1@ == infinity_encoding(48) || vk.delta_g2@ == infinity_encoding(96)
}

/// The first point of a proof: `r delta + alpha + A`.
pub open spec fn proof_point_a(vk: VerifyingKey, r: nat, x: Answers) -> Seq<u8> {
    g1_sum(g1_sum(g1_scaled(vk.delta_g1@, r), vk.alpha_g1@), g1_sum(x.a_inputs@, x.a_aux@))
}

/// The second point of a proof: `s delta + beta + B`, in G2.
pub open spec fn proof_point_b(vk: VerifyingKey, s: nat, x: Answers) -> Seq<u8> {
    g2_sum(g2_sum(g2_scaled(vk.delta_g2@, s), vk.beta_g2@), g2_sum(x.b_g2_inputs@, x.b_g2_aux@))
}

/// The third point of a proof: `r s delta + s alpha + r beta + s A + r B + H + L`, in G1.
pub open spec fn proof_point_c(vk: VerifyingKey, r: nat, s: nat, x: Answers) -> Seq<u8> {
    let blinding = g1_sum(
        g1_sum(g1_scaled(vk.delta_g1@, fr_mul(r, s)), g1_scaled(vk.alpha_g1@, s)),
        g1_scaled(vk.beta_g1@, r),
    );
    let with_a = g1_sum(blinding, g1_scaled(g1_sum(x.a_inputs@, x.a_aux@), s));
    let with_b = g1_sum(with_a, g1_scaled(g1_sum(x.b_g1_inputs@, x.b_g1_aux@), r));
    g1_sum(g1_sum(with_b, x.h@), x.l@)
}

/// Puts a proof together. It fails with `UnexpectedIdentity` where `delta` of the key is the
/// identity in G1 or in G2: such a key would come from a subverted setup.
pub fn assemble_proof(vk: &VerifyingKey, r: &Fr, s: &Fr, answers: &Answers) -> (p: Result<
    Proof,
    SynthesisError,
>)
    ensures
        match p {
            Ok(proof) => {
                &&& !has_identity(*vk)
                &&& proof.a@ == proof_point_a(*vk, r@, *answers)
                &&& proof.b@ == proof_point_b(*vk, s@, *answers)
                &&& proof.c@ == proof_point_c(*vk, r@, s@, *answers)
            },
            Err(e) => e == SynthesisError::UnexpectedIdentity && has_identity(*vk),
        },
{
    if vk.delta_g1.is_equal(&G1::identity()) || vk.delta_g2.is_equal(&G2::identity()) {
        return Err(SynthesisError::UnexpectedIdentity);
    }
    let g_a = vk.delta_g1.scale(r).add(&vk.alpha_g1);
    let g_b = vk.delta_g2.scale(s).add(&vk.beta_g2);
    let rs = r.mul(s);
    let g_c = vk.delta_g1.scale(&rs).add(&vk.alpha_g1.scale(s)).add(&vk.beta_g1.scale(r));
    let a_answer = answers.a_inputs.add(&answers.a_aux);
    let g_a = g_a.add(&a_answer);
    let g_c = g_c.add(&a_answer.scale(s));
    let b1_answer = answers.b_g1_inputs.add(&answers.b_g1_aux);
    let b2_answer = answers.b_g2_inputs.add(&answers.b_g2_aux);
    let g_b = g_b.add(&b2_answer);
    let g_c = g_c.add(&b1_answer.scale(r));
    let g_c = g_c.add(&answers.h).add(&answers.l);
    Ok(Proof { a: g_a, b: g_b, c: g_c })
}

} // verus!
