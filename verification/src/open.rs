use vstd::prelude::*;

use crate::conceal::{commitment_to, conceal_outcome};
use crate::curve::{g1_add, g1_mul};
use crate::error::HashingError;
use crate::setup::{CSetupParameters, SetupModel};
use crate::types::{AuxModel, AuxiliaryData, Commitment, ConcealedModel, ConcealedSignature};
use crate::utils::{hash_to_g1, message_point};

verus! {

/// What opening gives: whether the message commitment is the commitment to
/// the hash of `message` under the randomness of `aux`.
pub open spec fn open_outcome(
    message: Seq<u8>,
    cs: ConcealedModel,
    aux: AuxModel,
    p: SetupModel,
) -> bool {
    commitment_to(p, message_point(message), aux.r_msg, aux.s_msg) == cs.message_commitment
}

/// Open: recomputes the message commitment from `message` and the
/// randomness in `aux`, and tells whether it is the one in `concealed_sig`.
pub fn open_concealed_signature(
    message: &[u8],
    concealed_sig: &ConcealedSignature,
    aux: &AuxiliaryData,
    cs_params: &CSetupParameters,
) -> (r: Result<bool, HashingError>)
    ensures
        r matches Ok(b) && b == open_outcome(message@, concealed_sig@, aux@, cs_params@),
{
    let v1 = &cs_params.v.v1;
    let v2 = &cs_params.v.v2;
    let w1 = &cs_params.w.w1;
    let w2 = &cs_params.w.w2;

    let h = hash_to_g1(message)?;
    let derived_commitment = Commitment {
        c1: g1_add(&g1_mul(v1, &aux.r_msg), &g1_mul(w1, &aux.s_msg)),
        c2: g1_add(&g1_add(&h, &g1_mul(v2, &aux.r_msg)), &g1_mul(w2, &aux.s_msg)),
    };
    let same = derived_commitment.c1.equals(&concealed_sig.message_commitment.c1)
        && derived_commitment.c2.equals(&concealed_sig.message_commitment.c2);
    Ok(same)
}

/// A concealed signature opens with the randomness it was made with: opening
/// it with the same message and randomness answers `true`.
pub proof fn lemma_open_accepts_conceal(
    p: SetupModel,
    vk: Seq<u8>,
    message: Seq<u8>,
    sig: Seq<u8>,
    aux: AuxModel,
)
    ensures
        open_outcome(message, conceal_outcome(p, vk, message, sig, aux), aux, p),
{
}

} // verus!
