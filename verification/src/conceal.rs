use ark_std::rand::rngs::StdRng;
use vstd::prelude::*;

use crate::curve::{
    g1_add, g1_mul, g1_scaled, g1_sum, g2_difference, g2_generator, g2_mul, g2_scaled, g2_sub,
    random_scalar,
};
use crate::error::HashingError;
use crate::keys::VerifyKey;
use crate::params::g2_generator_bytes;
use crate::setup::{CSetupParameters, SetupModel};
use crate::signature::Signature;
use crate::utils::{hash_to_g1, message_point};

pub use crate::types::{AuxModel, AuxiliaryData, Commitment, CommitmentModel, ConcealedModel, ConcealedSignature, Proof, ProofModel};

verus! {

/// The commitment `(v1^r w1^s, m v2^r w2^s)` to the point `m` of G1.
pub open spec fn commitment_to(p: SetupModel, m: Seq<u8>, r: nat, s: nat) -> CommitmentModel {
    CommitmentModel {
        c1: g1_sum(g1_scaled(p.v1, r), g1_scaled(p.w1, s)),
        c2: g1_sum(g1_sum(m, g1_scaled(p.v2, r)), g1_scaled(p.w2, s)),
    }
}

/// The proof of knowledge `(g2^r_sig vk^-r_msg, g2^s_sig vk^-s_msg)`.
pub open spec fn proof_for(vk: Seq<u8>, aux: AuxModel) -> ProofModel {
    let g2 = g2_generator_bytes();
    ProofModel {
        z1: g2_difference(g2_scaled(g2, aux.r_sig), g2_scaled(vk, aux.r_msg)),
        z2: g2_difference(g2_scaled(g2, aux.s_sig), g2_scaled(vk, aux.s_msg)),
    }
}

/// The concealed form of the signature `sig` on the message that hashes to
/// `h`, made with the randomness `aux`.
pub open spec fn concealed_of(
    p: SetupModel,
    vk: Seq<u8>,
    h: Seq<u8>,
    sig: Seq<u8>,
    aux: AuxModel,
) -> ConcealedModel {
    ConcealedModel {
        signature_commitment: commitment_to(p, sig, aux.r_sig, aux.s_sig),
        message_commitment: commitment_to(p, h, aux.r_msg, aux.s_msg),
        proof: proof_for(vk, aux),
    }
}

/// What concealing gives: the concealed signature, made with the hash of
/// `message`.
pub open spec fn conceal_outcome(
    p: SetupModel,
    vk: Seq<u8>,
    message: Seq<u8>,
    sig: Seq<u8>,
    aux: AuxModel,
) -> ConcealedModel {
    concealed_of(p, vk, message_point(message), sig, aux)
}

/// Conceals `signature` on `message` with the given randomness: commits to
/// the signature and to the hash of the message, and proves knowledge of
/// the openings.
pub fn conceal(
    cs_params: &CSetupParameters,
    verify_key: &VerifyKey,
    message: &[u8],
    signature: &Signature,
    aux: &AuxiliaryData,
) -> (r: Result<ConcealedSignature, HashingError>)
    ensures
        r matches Ok(cs) && cs@ == conceal_outcome(cs_params@, verify_key@, message@, signature@, aux@),
{
    let v1 = &cs_params.v.v1;
    let v2 = &cs_params.v.v2;
    let w1 = &cs_params.w.w1;
    let w2 = &cs_params.w.w2;
    let g2 = g2_generator();
    let vk = &verify_key.value;

    let signature_commitment = Commitment {
        c1: g1_add(&g1_mul(v1, &aux.r_sig), &g1_mul(w1, &aux.s_sig)),
        c2: g1_add(&g1_add(&signature.value, &g1_mul(v2, &aux.r_sig)), &g1_mul(w2, &aux.s_sig)),
    };

    let h = hash_to_g1(message)?;
    let message_commitment = Commitment {
        c1: g1_add(&g1_mul(v1, &aux.r_msg), &g1_mul(w1, &aux.s_msg)),
        c2: g1_add(&g1_add(&h, &g1_mul(v2, &aux.r_msg)), &g1_mul(w2, &aux.s_msg)),
    };

    let proof = Proof {
        z1: g2_sub(&g2_mul(&g2, &aux.r_sig), &g2_mul(vk, &aux.r_msg)),
        z2: g2_sub(&g2_mul(&g2, &aux.s_sig), &g2_mul(vk, &aux.s_msg)),
    };

    Ok(ConcealedSignature { signature_commitment, message_commitment, proof })
}

/// Convert: samples the randomness `(r_sig, s_sig, r_msg, s_msg)` from `Fr`,
/// conceals `signature` with it, and returns the concealed signature with the
/// randomness, which opens it.
pub fn convert(
    cs_params: &CSetupParameters,
    verify_key: &VerifyKey,
    message: &[u8],
    signature: &Signature,
    rng: &mut StdRng,
) -> (r: Result<(ConcealedSignature, AuxiliaryData), HashingError>)
    ensures
        r matches Ok((cs, aux)) && cs@ == conceal_outcome(cs_params@, verify_key@, message@, signature@, aux@),
{
    let r_sig = random_scalar(rng);
    let s_sig = random_scalar(rng);
    let r_msg = random_scalar(rng);
    let s_msg = random_scalar(rng);
    let aux = AuxiliaryData { r_sig, s_sig, r_msg, s_msg };
    let concealed = conceal(cs_params, verify_key, message, signature, &aux)?;
    Ok((concealed, aux))
}

} // verus!
