//! The proofs that go in and the proof that comes out.
use crate::curve::{Fqk, G1, G2};
use crate::field::Fr;
use vstd::prelude::*;

verus! {

/// The encodings of a pair of points or of target-field elements.
pub type Pair = (Seq<u8>, Seq<u8>);

/// A Groth16 proof.
#[derive(Clone, Copy, Debug, PartialEq, Eq)]
pub struct Proof {
    pub a: G1,
    pub b: G2,
    pub c: G1,
}

/// A Groth16 verifying key, as the verifier of an aggregate uses it. A proof `(A, B, C)` for
/// the public inputs `x` is valid when
/// `e(A, B) = e(alpha_g1, beta_g2) e(ic[0] + x[0] ic[1] + ..., gamma_g2) e(C, delta_g2)`.
#[derive(Clone, Debug, PartialEq, Eq)]
pub struct PreparedVerifyingKey {
    pub alpha_g1: G1,
    pub beta_g2: G2,
    pub gamma_g2: G2,
    pub delta_g2: G2,
    /// One point more than a proof has public inputs.
    pub ic: Vec<G1>,
}

/// The opening of a commitment key at a point: one group element for each of its two vectors.
#[derive(Clone, Copy, Debug, PartialEq, Eq)]
pub struct KZGOpening<G>(pub G, pub G);

/// The record of a recursion over a vector of G1 and a vector of G2.
#[derive(Debug, PartialEq, Eq)]
pub struct GipaTIPP {
    /// The two cross commitments of each round.
    pub comms: Vec<((Fqk, Fqk), (Fqk, Fqk))>,
    /// The two cross pairing products of each round.
    pub z_vec: Vec<(Fqk, Fqk)>,
    pub final_a: G1,
    pub final_b: G2,
    pub final_vkey: (G2, G2),
    pub final_wkey: (G1, G1),
}

/// The record of a recursion over a vector of G1 and a vector of scalars.
#[derive(Debug, PartialEq, Eq)]
pub struct GipaMIPP {
    /// The two cross commitments of each round.
    pub comms: Vec<((Fqk, Fqk), (Fqk, Fqk))>,
    /// The two cross multi-exponentiations of each round.
    pub z_vec: Vec<(G1, G1)>,
    pub final_c: G1,
    pub final_r: Fr,
    pub final_vkey: (G2, G2),
}

/// The proof of a pairing product.
#[derive(Debug, PartialEq, Eq)]
pub struct TIPPProof {
    pub gipa: GipaTIPP,
    pub vkey_opening: KZGOpening<G2>,
    pub wkey_opening: KZGOpening<G1>,
}

/// The proof of a multi-exponentiation.
#[derive(Debug, PartialEq, Eq)]
pub struct MIPPProof {
    pub gipa: GipaMIPP,
    pub vkey_opening: KZGOpening<G2>,
}

/// The aggregate of a batch of Groth16 proofs.
#[derive(Debug, PartialEq, Eq)]
pub struct AggregateProof {
    /// The pair commitment to the vectors `A` and `B` of the proofs.
    pub com_ab: (Fqk, Fqk),
    /// The single commitment to the vector `C` of the proofs.
    pub com_c: (Fqk, Fqk),
    /// The pairing product of `A`, each entry raised to its power of `r`, with `B`.
    pub ip_ab: Fqk,
    /// The sum of the entries of `C`, each multiplied by its power of `r`.
    pub agg_c: G1,
    pub proof_ab: TIPPProof,
    pub proof_c: MIPPProof,
}

/// What the record of a pairing-product recursion stands for.
pub struct GipaTippView {
    pub comms: Seq<(Pair, Pair)>,
    pub z_vec: Seq<Pair>,
    pub final_a: Seq<u8>,
    pub final_b: Seq<u8>,
    pub final_vkey: Pair,
    pub final_wkey: Pair,
}

/// What the record of a multi-exponentiation recursion stands for.
pub struct GipaMippView {
    pub comms: Seq<(Pair, Pair)>,
    pub z_vec: Seq<Pair>,
    pub final_c: Seq<u8>,
    pub final_r: nat,
    pub final_vkey: Pair,
}

/// What the proof of a pairing product stands for.
pub struct TippProofView {
    pub gipa: GipaTippView,
    pub vkey_opening: Pair,
    pub wkey_opening: Pair,
}

/// What the proof of a multi-exponentiation stands for.
pub struct MippProofView {
    pub gipa: GipaMippView,
    pub vkey_opening: Pair,
}

/// What an aggregate proof stands for.
pub struct AggregateProofView {
    pub com_ab: Pair,
    pub com_c: Pair,
    pub ip_ab: Seq<u8>,
    pub agg_c: Seq<u8>,
    pub proof_ab: TippProofView,
    pub proof_c: MippProofView,
}

/// The encodings of a pair of target-field elements.
pub open spec fn fqk_pair(p: (Fqk, Fqk)) -> Pair {
    (p.0@, p.1@)
}

/// The encodings of a pair of G1 points.
pub open spec fn g1_pair(p: (G1, G1)) -> Pair {
    (p.0@, p.1@)
}

/// The encodings of a pair of G2 points.
pub open spec fn g2_pair(p: (G2, G2)) -> Pair {
    (p.0@, p.1@)
}

/// The encodings of the cross commitments of the rounds.
pub open spec fn comms_view(s: Seq<((Fqk, Fqk), (Fqk, Fqk))>) -> Seq<(Pair, Pair)> {
    Seq::new(s.len(), |i: int| (fqk_pair(s[i].0), fqk_pair(s[i].1)))
}

/// The encodings of the cross pairing products of the rounds.
pub open spec fn fqk_pairs_view(s: Seq<(Fqk, Fqk)>) -> Seq<Pair> {
    Seq::new(s.len(), |i: int| fqk_pair(s[i]))
}

/// The encodings of the cross multi-exponentiations of the rounds.
pub open spec fn g1_pairs_view(s: Seq<(G1, G1)>) -> Seq<Pair> {
    Seq::new(s.len(), |i: int| g1_pair(s[i]))
}

impl View for GipaTIPP {
    type V = GipaTippView;

    open spec fn view(&self) -> GipaTippView {
        GipaTippView {
            comms: comms_view(self.comms@),
            z_vec: fqk_pairs_view(self.z_vec@),
            final_a: self.final_a@,
            final_b: self.final_b@,
            final_vkey: g2_pair(self.final_vkey),
            final_wkey: g1_pair(self.final_wkey),
        }
    }
}

impl View for GipaMIPP {
    type V = GipaMippView;

    open spec fn view(&self) -> GipaMippView {
        GipaMippView {
            comms: comms_view(self.comms@),
            z_vec: g1_pairs_view(self.z_vec@),
            final_c: self.final_c@,
            final_r: self.final_r@,
            final_vkey: g2_pair(self.final_vkey),
        }
    }
}

impl View for TIPPProof {
    type V = TippProofView;

    open spec fn view(&self) -> TippProofView {
        TippProofView {
            gipa: self.gipa@,
            vkey_opening: (self.vkey_opening.0@, self.vkey_opening.1@),
            wkey_opening: (self.wkey_opening.0@, self.wkey_opening.1@),
        }
    }
}

impl View for MIPPProof {
    type V = MippProofView;

    open spec fn view(&self) -> MippProofView {
        MippProofView {
            gipa: self.gipa@,
            vkey_opening: (self.vkey_opening.0@, self.vkey_opening.1@),
        }
    }
}

impl View for AggregateProof {
    type V = AggregateProofView;

    open spec fn view(&self) -> AggregateProofView {
        AggregateProofView {
            com_ab: fqk_pair(self.com_ab),
            com_c: fqk_pair(self.com_c),
            ip_ab: self.ip_ab@,
            agg_c: self.agg_c@,
            proof_ab: self.proof_ab@,
            proof_c: self.proof_c@,
        }
    }
}

} // verus!
