use ark_std::rand::rngs::StdRng;
use vstd::prelude::*;

use crate::aggregate::{
    aggregate_concealed_signatures, aggregate_of, commitment_prefix, concealed_views, cross_splits_at,
    local_aggregate_opening, message_commitments, opening_of, proof_prefix, proofs, signature_commitments,
};
use crate::covers::aux_fits;
use crate::expanded_covers::{aggregate_bls, conversion_inputs, converted};
use crate::conceal::{conceal_outcome, convert};
use crate::error::HashingError;
use crate::keys::{key_gen, verify_key_of, SignKey, VerifyKey};
use crate::open::{open_concealed_signature, open_outcome};
use crate::curve::{g1_scaled, pairing_product};
use crate::params::{fr_modulus, g1_generator_bytes, g1_identity_bytes, g2_generator_bytes, g2_identity_bytes};
use crate::setup::{csetup, setup_of, CSetupParameters, SetupModel};
use crate::signature::{sign, sign_outcome, Signature};
use crate::types::{
    commitment_sum, proof_sum, AggregateSignature, AuxModel, AuxiliaryData, ConcealedModel, ConcealedSignature,
    LocalAggregateOpening,
};
use crate::utils::message_point;
use crate::verify::{
    aggregate_check, all_pass, concealed_check, concealed_equations, honest_signature, key_sum, key_views,
    local_binding, local_merged_check, local_pairing_check, local_verify, verify, verify_aggregate,
    verify_concealed, verify_outcome,
};

verus! {

/// The whole scheme behind one interface: it holds the concealment
/// parameters, set up when the scheme is made.
pub struct Scheme {
    cs_params: CSetupParameters,
}

impl View for Scheme {
    type V = SetupModel;

    closed spec fn view(&self) -> SetupModel {
        self.cs_params@
    }
}

impl Scheme {
    /// Sets up fresh concealment parameters.
    pub fn new(rng: &mut StdRng) -> (s: Self)
        ensures
            exists|a: nat, b: nat|
                {
                    &&& 0 < a < fr_modulus()
                    &&& b < fr_modulus()
                    &&& s@ == setup_of(a, b)
                    &&& s@.w1 == g1_scaled(g1_generator_bytes(), (a * b) % fr_modulus())
                },
            s@.v1 != g1_identity_bytes(),
    {
        Self { cs_params: csetup(rng) }
    }

    /// KeyGen.
    pub fn key_gen(&self, rng: &mut StdRng) -> (keys: (VerifyKey, SignKey))
        ensures
            keys.1@ != 0,
            keys.0@ == verify_key_of(keys.1@),
            keys.0@ != g2_identity_bytes(),
    {
        key_gen(rng)
    }

    /// Sign.
    pub fn sign(&self, signing_key: &SignKey, message: &[u8]) -> (r: Result<Signature, HashingError>)
        ensures
            r matches Ok(s) && s@ == sign_outcome(signing_key@, message@),
    {
        sign(signing_key, message)
    }

    /// Verify.
    pub fn verify(
        &self,
        verification_key: &VerifyKey,
        message: &[u8],
        signature: &Signature,
    ) -> (r: Result<bool, HashingError>)
        ensures
            r matches Ok(b) && b == verify_outcome(verification_key@, message@, signature@),
            verify_outcome(verification_key@, message@, signature@) == (pairing_product(
                seq![signature@],
                seq![g2_generator_bytes()],
            ) == pairing_product(seq![message_point(message@)], seq![verification_key@])),
            honest_signature(verification_key@, message@, signature@) ==> verify_outcome(
                verification_key@,
                message@,
                signature@,
            ),
    {
        verify(verification_key, message, signature)
    }

    /// Convert, under this scheme's parameters.
    pub fn convert(
        &self,
        verification_key: &VerifyKey,
        message: &[u8],
        signature: &Signature,
        rng: &mut StdRng,
    ) -> (r: Result<(ConcealedSignature, AuxiliaryData), HashingError>)
        ensures
            r matches Ok((cs, aux)) && cs@ == conceal_outcome(self@, verification_key@, message@, signature@, aux@),
    {
        convert(&self.cs_params, verification_key, message, signature, rng)
    }

    /// CVerify, under this scheme's parameters.
    pub fn verify_concealed(
        &self,
        concealed_signature: &ConcealedSignature,
        verification_key: &VerifyKey,
    ) -> (r: bool)
        ensures
            r == concealed_check(concealed_signature@, verification_key@, self@),
            r == concealed_equations(concealed_signature@, verification_key@, self@),
            forall|message: Seq<u8>, sig: Seq<u8>, aux: AuxModel|
                aux_fits(aux) && concealed_signature@ == #[trigger] conceal_outcome(
                    self@,
                    verification_key@,
                    message,
                    sig,
                    aux,
                ) ==> r == verify_outcome(verification_key@, message, sig),
    {
        verify_concealed(concealed_signature, verification_key, &self.cs_params)
    }

    /// Open, under this scheme's parameters.
    pub fn open_concealed_signature(
        &self,
        message: &[u8],
        concealed_signature: &ConcealedSignature,
        auxiliary_data: &AuxiliaryData,
    ) -> (r: Result<bool, HashingError>)
        ensures
            r matches Ok(b) && b == open_outcome(message@, concealed_signature@, auxiliary_data@, self@),
    {
        open_concealed_signature(message, concealed_signature, auxiliary_data, &self.cs_params)
    }

    /// CAgg. The two lists must have the same length, and must not be empty.
    pub fn aggregate_concealed_signatures(
        &self,
        verify_key_list: &[VerifyKey],
        signature_list: &[ConcealedSignature],
    ) -> (agg: AggregateSignature)
        requires
            verify_key_list.len() == signature_list.len(),
            verify_key_list.len() > 0,
        ensures
            agg@ == aggregate_of(key_views(verify_key_list@), concealed_views(signature_list@)),
            forall|j: int|
                0 <= j < signature_list.len() ==> #[trigger] cross_splits_at(
                    agg@,
                    key_views(verify_key_list@),
                    concealed_views(signature_list@),
                    j,
                ),
    {
        aggregate_concealed_signatures(verify_key_list, signature_list)
    }

    /// CAggVf, under this scheme's parameters: whether the keys sum to the
    /// aggregate key and the aggregate's pairing equations hold. The list
    /// must not be empty.
    pub fn verify_aggregate(
        &self,
        verify_key_list: &[VerifyKey],
        aggregate_signature: &AggregateSignature,
    ) -> (r: bool)
        requires
            verify_key_list.len() > 0,
        ensures
            r == (key_sum(key_views(verify_key_list@)) == aggregate_signature@.avk
                && aggregate_check(aggregate_signature@, self@)),
            forall|sigs: Seq<ConcealedModel>|
                sigs.len() == verify_key_list.len() && aggregate_signature@ == #[trigger] aggregate_of(
                    key_views(verify_key_list@),
                    sigs,
                ) && all_pass(key_views(verify_key_list@), sigs, self@) ==> r,
            forall|sigs: Seq<ConcealedModel>|
                sigs.len() == 1 && verify_key_list.len() == 1 && aggregate_signature@ == #[trigger] aggregate_of(
                    key_views(verify_key_list@),
                    sigs,
                ) ==> r == concealed_check(sigs[0], key_views(verify_key_list@)[0], self@),
            forall|ms: Seq<Seq<u8>>, ss: Seq<Seq<u8>>, auxs: Seq<AuxModel>|
                conversion_inputs(key_views(verify_key_list@), ms, ss, auxs) && aggregate_signature@
                    == #[trigger] aggregate_of(
                    key_views(verify_key_list@),
                    converted(self@, key_views(verify_key_list@), ms, ss, auxs),
                ) ==> r == aggregate_bls(key_views(verify_key_list@), ms, ss),
    {
        verify_aggregate(verify_key_list, aggregate_signature, &self.cs_params)
    }

    /// LAggOp. The two lists must have the same length and `index` must be a
    /// position in them.
    pub fn local_aggregate_opening(
        &self,
        aggregate_signature: &AggregateSignature,
        verify_key_list: &[VerifyKey],
        signature_list: &[ConcealedSignature],
        index: usize,
    ) -> (lop: LocalAggregateOpening)
        requires
            verify_key_list.len() == signature_list.len(),
            index < signature_list.len(),
        ensures
            lop@ == opening_of(
                aggregate_signature@.avk,
                key_views(verify_key_list@),
                concealed_views(signature_list@),
                index as int,
            ),
            ({
                let sigs = concealed_views(signature_list@);
                let n = sigs.len() as int;
                &&& aggregate_signature@.signature_commitment == commitment_prefix(signature_commitments(sigs), n)
                    ==> commitment_sum(sigs[index as int].signature_commitment, lop@.signature_commitment)
                    == aggregate_signature@.signature_commitment
                &&& aggregate_signature@.message_commitment == commitment_prefix(message_commitments(sigs), n)
                    ==> commitment_sum(sigs[index as int].message_commitment, lop@.message_commitment)
                    == aggregate_signature@.message_commitment
                &&& aggregate_signature@.proof == proof_prefix(proofs(sigs), n)
                    ==> proof_sum(sigs[index as int].proof, lop@.proof) == aggregate_signature@.proof
            }),
            aggregate_signature@ == aggregate_of(key_views(verify_key_list@), concealed_views(signature_list@))
                ==> local_binding(
                aggregate_signature@,
                lop@,
                concealed_views(signature_list@)[index as int],
            ),
    {
        local_aggregate_opening(aggregate_signature, verify_key_list, signature_list, index)
    }

    /// LAggVf, under this scheme's parameters.
    pub fn local_verify(
        &self,
        verify_key: &VerifyKey,
        aggregate_signature: &AggregateSignature,
        local_opening: &LocalAggregateOpening,
        concealed_signature: &ConcealedSignature,
    ) -> (r: bool)
        ensures
            r == (local_binding(aggregate_signature@, local_opening@, concealed_signature@)
                && local_pairing_check(
                verify_key@,
                aggregate_signature@,
                local_opening@,
                concealed_signature@,
                self@,
            )),
            local_pairing_check(verify_key@, aggregate_signature@, local_opening@, concealed_signature@, self@)
                == local_merged_check(
                verify_key@,
                aggregate_signature@,
                local_opening@,
                concealed_signature@,
                self@,
            ),
            forall|keys: Seq<Seq<u8>>, sigs: Seq<ConcealedModel>, j: int|
                keys.len() == sigs.len() && 0 <= j < sigs.len() && all_pass(keys, sigs, self@)
                    && aggregate_signature@ == aggregate_of(keys, sigs) && local_opening@ == #[trigger] opening_of(
                    aggregate_of(keys, sigs).avk,
                    keys,
                    sigs,
                    j,
                ) && concealed_signature@ == sigs[j] && verify_key@ == keys[j] ==> local_pairing_check(
                    verify_key@,
                    aggregate_signature@,
                    local_opening@,
                    concealed_signature@,
                    self@,
                ),
            forall|keys: Seq<Seq<u8>>, ms: Seq<Seq<u8>>, ss: Seq<Seq<u8>>, auxs: Seq<AuxModel>, j: int|
                conversion_inputs(keys, ms, ss, auxs) && 0 <= j < keys.len() && aggregate_signature@ == aggregate_of(
                    keys,
                    converted(self@, keys, ms, ss, auxs),
                ) && local_opening@ == #[trigger] opening_of(
                    aggregate_of(keys, converted(self@, keys, ms, ss, auxs)).avk,
                    keys,
                    converted(self@, keys, ms, ss, auxs),
                    j,
                ) && concealed_signature@ == converted(self@, keys, ms, ss, auxs)[j] && verify_key@ == keys[j]
                    ==> r == (local_binding(aggregate_signature@, local_opening@, concealed_signature@)
                    && aggregate_bls(keys, ms, ss)),
    {
        local_verify(verify_key, aggregate_signature, local_opening, concealed_signature, &self.cs_params)
    }
}

} // verus!
