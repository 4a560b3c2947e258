use vstd::prelude::*;

use crate::curve::{
    g1_scaled, g1_views, g2_add, g2_generator, g2_scaled, g2_neg, g2_negated, g2_sum, g2_views, gt_add,
    gt_check_identity, gt_is_identity, gt_sum, multi_pairing, pairing_product, G1,
    G2,
};
use crate::bilinear::{
    form, forms_total, lemma_form_two, g1_coef, g1_fits, g1_value, g2_coef, g2_fits, g2_value, identity_cover,
    pairing_laws, G1Term, G2Term,
};
use crate::conceal::conceal_outcome;
use crate::agg_covers::{lemma_aggregate_covers, lemma_local_covers, lemma_single_member_covers, member_firsts};
use crate::aggregate::{aggregate_of, key_differences, message_firsts, message_seconds, opening_of};
use crate::covers::{aux_fits, lemma_bls_balance, lemma_concealed_balance, lemma_conversion_covers, lemma_local_merge};
use crate::error::HashingError;
use crate::expanded_covers::{
    aggregate_bls, conversion_inputs, converted, hashes, lemma_expanded_aggregate_covers, lemma_expanded_local_covers,
};
use crate::keys::{verify_key_of, VerifyKey};
use crate::params::{fr_modulus, g2_generator_bytes};
use crate::setup::{CSetupParameters, SetupModel};
use crate::signature::{sign_outcome, Signature};
use crate::types::{
    AuxModel,
    commitment_sum, proof_sum, AggregateModel, AggregateSignature, ConcealedModel,
    ConcealedSignature, LocalAggregateOpening, OpeningModel,
};
use crate::utils::{hash_to_g1, message_point};

verus! {

/// The BLS equation `e(sig, g2) = e(h, vk)`, checked as
/// `e(sig, g2) e(h, -vk) = 1`.
pub open spec fn bls_check(vk: Seq<u8>, h: Seq<u8>, sig: Seq<u8>) -> bool {
    gt_is_identity(
        pairing_product(seq![sig, h], seq![g2_generator_bytes(), g2_negated(vk)]),
    )
}

/// What verifying gives: the BLS equation for the hash of `message`.
pub open spec fn verify_outcome(vk: Seq<u8>, message: Seq<u8>, sig: Seq<u8>) -> bool {
    bls_check(vk, message_point(message), sig)
}

/// The verification keys of a list, as points.
pub open spec fn key_views(keys: Seq<VerifyKey>) -> Seq<Seq<u8>> {
    keys.map_values(|k: VerifyKey| k@)
}

/// The sum of the first `i` keys, added from the first on (`i >= 1`).
pub open spec fn key_prefix(keys: Seq<Seq<u8>>, i: int) -> Seq<u8>
    decreases i,
{
    if i <= 1 {
        keys[0]
    } else {
        g2_sum(key_prefix(keys, i - 1), keys[i - 1])
    }
}

/// The aggregate verification key `avk`: the sum of all the keys.
pub open spec fn key_sum(keys: Seq<Seq<u8>>) -> Seq<u8> {
    key_prefix(keys, keys.len() as int)
}

/// The two pairing equations of a concealed signature under `vk`:
/// `e(C_sig,k, g2) e(C_M,k, vk^-1) = e(v_k, z1) e(w_k, z2)` for `k = 1, 2`.
pub open spec fn concealed_check(cs: ConcealedModel, vk: Seq<u8>, p: SetupModel) -> bool {
    let lhs = seq![g2_generator_bytes(), g2_negated(vk), g2_negated(cs.proof.z1), g2_negated(cs.proof.z2)];
    &&& gt_is_identity(
        pairing_product(
            seq![cs.signature_commitment.c1, cs.message_commitment.c1, p.v1, p.w1],
            lhs,
        ),
    )
    &&& gt_is_identity(
        pairing_product(
            seq![cs.signature_commitment.c2, cs.message_commitment.c2, p.v2, p.w2],
            lhs,
        ),
    )
}

/// The equations of a concealed signature as written:
/// `e(C_sig,k, g2) e(C_M,k, vk^-1) = e(v_k, z1) e(w_k, z2)` for `k = 1, 2`.
pub open spec fn concealed_equations(cs: ConcealedModel, vk: Seq<u8>, p: SetupModel) -> bool {
    let g2 = seq![g2_generator_bytes(), g2_negated(vk)];
    let z = seq![cs.proof.z1, cs.proof.z2];
    &&& pairing_product(seq![cs.signature_commitment.c1, cs.message_commitment.c1], g2)
        == pairing_product(seq![p.v1, p.w1], z)
    &&& pairing_product(seq![cs.signature_commitment.c2, cs.message_commitment.c2], g2)
        == pairing_product(seq![p.v2, p.w2], z)
}

/// The two pairing equations of an aggregate, each with its cross term.
pub open spec fn aggregate_check(agg: AggregateModel, p: SetupModel) -> bool {
    let rhs = seq![g2_generator_bytes(), g2_negated(agg.avk), g2_negated(agg.proof.z1), g2_negated(agg.proof.z2)];
    &&& gt_is_identity(
        gt_sum(
            pairing_product(
                seq![agg.signature_commitment.c1, agg.message_commitment.c1, p.v1, p.w1],
                rhs,
            ),
            agg.cross.t1,
        ),
    )
    &&& gt_is_identity(
        gt_sum(
            pairing_product(
                seq![agg.signature_commitment.c2, agg.message_commitment.c2, p.v2, p.w2],
                rhs,
            ),
            agg.cross.t2,
        ),
    )
}

/// The binding checks of a local opening: the aggregate is, component by
/// component, the concealed signature plus the opening.
pub open spec fn local_binding(agg: AggregateModel, lop: OpeningModel, cs: ConcealedModel) -> bool {
    &&& agg.message_commitment == commitment_sum(cs.message_commitment, lop.message_commitment)
    &&& agg.signature_commitment == commitment_sum(
        cs.signature_commitment,
        lop.signature_commitment,
    )
    &&& agg.proof == proof_sum(cs.proof, lop.proof)
}

/// The two pairing equations of a local opening together with the concealed
/// signature it opens.
pub open spec fn local_pairing_check(
    vk: Seq<u8>,
    agg: AggregateModel,
    lop: OpeningModel,
    cs: ConcealedModel,
    p: SetupModel,
) -> bool {
    let g2 = g2_generator_bytes();
    let rhs = seq![
        g2,
        g2_negated(agg.avk),
        g2,
        g2_negated(vk),
        g2_negated(lop.proof.z1),
        g2_negated(lop.proof.z2),
        g2_negated(cs.proof.z1),
        g2_negated(cs.proof.z2),
    ];
    &&& gt_is_identity(
        gt_sum(
            pairing_product(
                seq![
                    lop.signature_commitment.c1,
                    lop.message_commitment.c1,
                    cs.signature_commitment.c1,
                    cs.message_commitment.c1,
                    p.v1,
                    p.w1,
                    p.v1,
                    p.w1,
                ],
                rhs,
            ),
            lop.cross.t1,
        ),
    )
    &&& gt_is_identity(
        gt_sum(
            pairing_product(
                seq![
                    lop.signature_commitment.c2,
                    lop.message_commitment.c2,
                    cs.signature_commitment.c2,
                    cs.message_commitment.c2,
                    p.v2,
                    p.w2,
                    p.v2,
                    p.w2,
                ],
                rhs,
            ),
            lop.cross.t2,
        ),
    )
}

/// `vk` is the key of a signing key `x` and `sig` the signature of `message`
/// under it.
pub open spec fn honest_signature(vk: Seq<u8>, message: Seq<u8>, sig: Seq<u8>) -> bool {
    exists|x: nat| x < fr_modulus() && vk == verify_key_of(x) && sig == sign_outcome(x, message)
}

/// The pairs `(h x, g2), (h, -(g2 x))` over the bases `[h]` and `[g2]`.
pub open spec fn bls_pairs(x: nat) -> Seq<(G1Term, G2Term)> {
    seq![
        (G1Term::Times(Box::new(G1Term::Base(0)), x), G2Term::Base(0)),
        (G1Term::Base(0), G2Term::Neg(Box::new(G2Term::Times(Box::new(G2Term::Base(0)), x)))),
    ]
}

/// The BLS equation of an honest signature adds up to nothing:
/// `e(h x, g2) e(h, -(g2 x))` has exponent `x - x = 0`.
proof fn lemma_bls_cover(h: Seq<u8>, x: nat)
    requires
        x < fr_modulus(),
    ensures
        identity_cover(
            seq![g1_scaled(h, x), h],
            seq![g2_generator_bytes(), g2_negated(g2_scaled(g2_generator_bytes(), x))],
            seq![h],
            seq![g2_generator_bytes()],
            bls_pairs(x),
            Seq::empty(),
        ),
{
    reveal_with_fuel(g1_value, 3);
    reveal_with_fuel(g2_value, 4);
    reveal_with_fuel(g1_fits, 3);
    reveal_with_fuel(g2_fits, 4);
    reveal_with_fuel(g1_coef, 3);
    reveal_with_fuel(g2_coef, 4);
    reveal_with_fuel(form, 3);
    let ps = bls_pairs(x);
    let p = seq![h];
    let q = seq![g2_generator_bytes()];
    assert(ps.map_values(|y: (G1Term, G2Term)| g1_value(y.0, p)) =~= seq![g1_scaled(h, x), h]);
    assert(ps.map_values(|y: (G1Term, G2Term)| g2_value(y.1, q)) =~= seq![
        g2_generator_bytes(),
        g2_negated(g2_scaled(g2_generator_bytes(), x)),
    ]);
    assert forall|s: int, t: int| #[trigger] form(ps, s, t) == forms_total(Seq::empty(), s, t) by {
        lemma_form_two(ps[0], ps[1], s, t);
        let i: int = if s == 0 { 1 } else { 0 };
        let j: int = if t == 0 { 1 } else { 0 };
        assert(g1_coef(ps[0].0, s) == x * i);
        assert(g2_coef(ps[0].1, t) == j);
        assert(g1_coef(ps[1].0, s) == i);
        assert(g2_coef(ps[1].1, t) == -(x * j));
        assert((x * i) * j + i * (-(x * j)) == 0) by (nonlinear_arith);
    }
}

/// Every concealed signature of `sigs` passes its check under the key in
/// the same place.
pub open spec fn all_pass(keys: Seq<Seq<u8>>, sigs: Seq<ConcealedModel>, p: SetupModel) -> bool {
    forall|i: int| 0 <= i < sigs.len() ==> concealed_check(#[trigger] sigs[i], keys[i], p)
}

/// The two equations of a local opening with the proofs of the opening and of
/// the concealed signature added before pairing:
/// `e(C'_sig,k, g2) e(C'_M,k, avk^-1) e(C_sig,k, g2) e(C_M,k, vk^-1)
/// e(v_k, (z1' z1)^-1) e(w_k, (z2' z2)^-1) T'_k = 1` for `k = 1, 2`.
pub open spec fn local_merged_check(
    vk: Seq<u8>,
    agg: AggregateModel,
    lop: OpeningModel,
    cs: ConcealedModel,
    p: SetupModel,
) -> bool {
    let g2 = g2_generator_bytes();
    let rhs = seq![
        g2,
        g2_negated(agg.avk),
        g2,
        g2_negated(vk),
        g2_negated(g2_sum(lop.proof.z1, cs.proof.z1)),
        g2_negated(g2_sum(lop.proof.z2, cs.proof.z2)),
    ];
    &&& gt_is_identity(
        gt_sum(
            pairing_product(
                seq![
                    lop.signature_commitment.c1,
                    lop.message_commitment.c1,
                    cs.signature_commitment.c1,
                    cs.message_commitment.c1,
                    p.v1,
                    p.w1,
                ],
                rhs,
            ),
            lop.cross.t1,
        ),
    )
    &&& gt_is_identity(
        gt_sum(
            pairing_product(
                seq![
                    lop.signature_commitment.c2,
                    lop.message_commitment.c2,
                    cs.signature_commitment.c2,
                    cs.message_commitment.c2,
                    p.v2,
                    p.w2,
                ],
                rhs,
            ),
            lop.cross.t2,
        ),
    )
}

/// For one signer, the aggregate BLS equation is the BLS equation itself.
pub proof fn lemma_aggregate_bls_of_one(vk: Seq<u8>, message: Seq<u8>, sig: Seq<u8>)
    ensures
        aggregate_bls(seq![vk], seq![message], seq![sig]) == verify_outcome(vk, message, sig),
{
    assert(seq![sig] + hashes(seq![message]) =~= seq![sig, message_point(message)]);
    assert(Seq::new(1, |i: int| g2_generator_bytes()) + seq![vk].map_values(|k: Seq<u8>| g2_negated(k))
        =~= seq![g2_generator_bytes(), g2_negated(vk)]);
}

/// Pairs `a` with `b` position by position and tells whether the product,
/// plus `extra` where one is given, is the identity of GT.
fn product_is_identity(a: &Vec<G1>, b: &Vec<G2>, extra: Option<&crate::curve::Gt>) -> (r: bool)
    requires
        a.len() == b.len(),
    ensures
        r == match extra {
            Some(t) => gt_is_identity(gt_sum(pairing_product(g1_views(a@), g2_views(b@)), t@)),
            None => gt_is_identity(pairing_product(g1_views(a@), g2_views(b@))),
        },
        pairing_laws(pairing_product(g1_views(a@), g2_views(b@)), g1_views(a@), g2_views(b@)),
        extra matches Some(t) ==> forall|a2: Seq<Seq<u8>>, b2: Seq<Seq<u8>>|
            t@ == pairing_product(a2, b2) && a2.len() == b2.len() ==> #[trigger] pairing_laws(
                gt_sum(pairing_product(g1_views(a@), g2_views(b@)), t@),
                g1_views(a@) + a2,
                g2_views(b@) + b2,
            ),
{
    let product = multi_pairing(a, b);
    match extra {
        Some(t) => {
            let sum = gt_add(&product, t);
            assert(g1_views(a@).len() == g2_views(b@).len());
            gt_check_identity(&sum)
        },
        None => gt_check_identity(&product),
    }
}

/// Verify: whether `signature` is a BLS signature on `message` under `vk`,
/// that is, whether `e(sig, g2) = e(H(message), vk)`.
pub fn verify(vk: &VerifyKey, message: &[u8], signature: &Signature) -> (r: Result<bool, HashingError>)
    ensures
        r matches Ok(b) && b == verify_outcome(vk@, message@, signature@),
        verify_outcome(vk@, message@, signature@) == (pairing_product(
            seq![signature@],
            seq![g2_generator_bytes()],
        ) == pairing_product(seq![message_point(message@)], seq![vk@])),
        honest_signature(vk@, message@, signature@) ==> verify_outcome(vk@, message@, signature@),
{
    let h = hash_to_g1(message)?;
    let mut lhs: Vec<G1> = Vec::new();
    lhs.push(signature.value.duplicate());
    lhs.push(h);
    let mut rhs: Vec<G2> = Vec::new();
    rhs.push(g2_generator());
    rhs.push(g2_neg(&vk.value));
    assert(g1_views(lhs@) =~= seq![signature@, lhs@[1]@]);
    assert(g2_views(rhs@) =~= seq![g2_generator_bytes(), g2_negated(vk@)]);
    let valid = product_is_identity(&lhs, &rhs, None);
    proof {
        lemma_bls_balance(signature@, message_point(message@), vk@);
        if honest_signature(vk@, message@, signature@) {
            let x = choose|x: nat|
                x < fr_modulus() && vk@ == verify_key_of(x) && signature@ == sign_outcome(x, message@);
            lemma_bls_cover(message_point(message@), x);
        }
    }
    Ok(valid)
}

/// CVerify: whether `concealed_signature` satisfies its two pairing
/// equations under `verify_key` and the parameters.
pub fn verify_concealed(
    concealed_signature: &ConcealedSignature,
    verify_key: &VerifyKey,
    cs_params: &CSetupParameters,
) -> (r: bool)
    ensures
        r == concealed_check(concealed_signature@, verify_key@, cs_params@),
        r == concealed_equations(concealed_signature@, verify_key@, cs_params@),
        forall|message: Seq<u8>, sig: Seq<u8>, aux: AuxModel|
            aux_fits(aux) && concealed_signature@ == #[trigger] conceal_outcome(
                cs_params@,
                verify_key@,
                message,
                sig,
                aux,
            ) ==> r == verify_outcome(verify_key@, message, sig),
{
    let cs = concealed_signature;
    let rhs = vec![
        g2_generator(),
        g2_neg(&verify_key.value),
        g2_neg(&cs.proof.z1),
        g2_neg(&cs.proof.z2),
    ];
    let lhs1 = vec![
        cs.signature_commitment.c1.duplicate(),
        cs.message_commitment.c1.duplicate(),
        cs_params.v.v1.duplicate(),
        cs_params.w.w1.duplicate(),
    ];
    let lhs2 = vec![
        cs.signature_commitment.c2.duplicate(),
        cs.message_commitment.c2.duplicate(),
        cs_params.v.v2.duplicate(),
        cs_params.w.w2.duplicate(),
    ];
    assert(g2_views(rhs@) =~= seq![g2_generator_bytes(), g2_negated(verify_key@), g2_negated(cs@.proof.z1), g2_negated(cs@.proof.z2)]);
    assert(g1_views(lhs1@) =~= seq![cs@.signature_commitment.c1, cs@.message_commitment.c1, cs_params@.v1, cs_params@.w1]);
    assert(g1_views(lhs2@) =~= seq![cs@.signature_commitment.c2, cs@.message_commitment.c2, cs_params@.v2, cs_params@.w2]);
    let check1 = product_is_identity(&lhs1, &rhs, None);
    let check2 = product_is_identity(&lhs2, &rhs, None);
    proof {
        lemma_concealed_balance(
            cs@.signature_commitment.c1,
            cs@.message_commitment.c1,
            cs_params@.v1,
            cs_params@.w1,
            verify_key@,
            cs@.proof.z1,
            cs@.proof.z2,
        );
        lemma_concealed_balance(
            cs@.signature_commitment.c2,
            cs@.message_commitment.c2,
            cs_params@.v2,
            cs_params@.w2,
            verify_key@,
            cs@.proof.z1,
            cs@.proof.z2,
        );
        assert forall|message: Seq<u8>, sig: Seq<u8>, aux: AuxModel|
            aux_fits(aux) && cs@ == #[trigger] conceal_outcome(
                cs_params@,
                verify_key@,
                message,
                sig,
                aux,
            ) implies (check1 && check2) == verify_outcome(verify_key@, message, sig) by {
            lemma_conversion_covers(cs_params@, verify_key@, message_point(message), sig, aux);
        }
    }
    check1 && check2
}

/// The sum of the verification keys of a nonempty list, added from the first
/// on, as `reduce` adds them.
pub(crate) fn sum_verify_keys(verify_key_list: &[VerifyKey]) -> (avk: G2)
    requires
        verify_key_list.len() > 0,
    ensures
        avk@ == key_sum(key_views(verify_key_list@)),
{
    let ghost keys = key_views(verify_key_list@);
    let mut avk = verify_key_list[0].value.duplicate();
    let mut i: usize = 1;
    while i < verify_key_list.len()
        invariant
            1 <= i <= verify_key_list.len(),
            keys == key_views(verify_key_list@),
            avk@ == key_prefix(keys, i as int),
        decreases verify_key_list.len() - i,
    {
        avk = g2_add(&avk, &verify_key_list[i].value);
        i = i + 1;
    }
    avk
}

/// CAggVf: whether the keys of `verify_key_list` sum to the aggregate key of
/// `aggregate_signature` and the aggregate satisfies its two pairing
/// equations, each with its cross term. The list must not be empty.
pub fn verify_aggregate(
    verify_key_list: &[VerifyKey],
    aggregate_signature: &AggregateSignature,
    cs_params: &CSetupParameters,
) -> (r: bool)
    requires
        verify_key_list.len() > 0,
    ensures
        r == (key_sum(key_views(verify_key_list@)) == aggregate_signature@.avk
            && aggregate_check(aggregate_signature@, cs_params@)),
        forall|sigs: Seq<ConcealedModel>|
            sigs.len() == verify_key_list.len() && aggregate_signature@ == #[trigger] aggregate_of(
                key_views(verify_key_list@),
                sigs,
            ) && all_pass(key_views(verify_key_list@), sigs, cs_params@) ==> r,
        forall|sigs: Seq<ConcealedModel>|
            sigs.len() == 1 && verify_key_list.len() == 1 && aggregate_signature@ == #[trigger] aggregate_of(
                key_views(verify_key_list@),
                sigs,
            ) ==> r == concealed_check(sigs[0], key_views(verify_key_list@)[0], cs_params@),
        forall|ms: Seq<Seq<u8>>, ss: Seq<Seq<u8>>, auxs: Seq<AuxModel>|
            conversion_inputs(key_views(verify_key_list@), ms, ss, auxs) && aggregate_signature@
                == #[trigger] aggregate_of(
                key_views(verify_key_list@),
                converted(cs_params@, key_views(verify_key_list@), ms, ss, auxs),
            ) ==> r == aggregate_bls(key_views(verify_key_list@), ms, ss),
{
    let avk = sum_verify_keys(verify_key_list);
    if !avk.equals(&aggregate_signature.avk) {
        return false;
    }
    let agg = aggregate_signature;
    let rhs = vec![
        g2_generator(),
        g2_neg(&avk),
        g2_neg(&agg.proof.z1),
        g2_neg(&agg.proof.z2),
    ];
    let lhs1 = vec![
        agg.signature_commitment.c1.duplicate(),
        agg.message_commitment.c1.duplicate(),
        cs_params.v.v1.duplicate(),
        cs_params.w.w1.duplicate(),
    ];
    let lhs2 = vec![
        agg.signature_commitment.c2.duplicate(),
        agg.message_commitment.c2.duplicate(),
        cs_params.v.v2.duplicate(),
        cs_params.w.w2.duplicate(),
    ];
    assert(g2_views(rhs@) =~= seq![g2_generator_bytes(), g2_negated(agg@.avk), g2_negated(agg@.proof.z1), g2_negated(agg@.proof.z2)]);
    assert(g1_views(lhs1@) =~= seq![agg@.signature_commitment.c1, agg@.message_commitment.c1, cs_params@.v1, cs_params@.w1]);
    assert(g1_views(lhs2@) =~= seq![agg@.signature_commitment.c2, agg@.message_commitment.c2, cs_params@.v2, cs_params@.w2]);
    let check1 = product_is_identity(&lhs1, &rhs, Some(&agg.cross.t1));
    let check2 = product_is_identity(&lhs2, &rhs, Some(&agg.cross.t2));
    proof {
        let keys = key_views(verify_key_list@);
        assert forall|sigs: Seq<ConcealedModel>|
            sigs.len() == verify_key_list.len() && agg@ == #[trigger] aggregate_of(keys, sigs)
                && all_pass(keys, sigs, cs_params@) implies check1 && check2 by {
            let a = aggregate_of(keys, sigs);
            let kd = key_differences(a.avk, keys);
            assert(message_firsts(sigs).len() == kd.len());
            assert(message_seconds(sigs).len() == kd.len());
            assert(pairing_laws(
                gt_sum(pairing_product(g1_views(lhs1@), g2_views(rhs@)), agg.cross.t1@),
                g1_views(lhs1@) + message_firsts(sigs),
                g2_views(rhs@) + kd,
            ));
            assert(pairing_laws(
                gt_sum(pairing_product(g1_views(lhs2@), g2_views(rhs@)), agg.cross.t2@),
                g1_views(lhs2@) + message_seconds(sigs),
                g2_views(rhs@) + kd,
            ));
            lemma_aggregate_covers(keys, sigs, cs_params@, false);
            lemma_aggregate_covers(keys, sigs, cs_params@, true);
        }
        assert forall|sigs: Seq<ConcealedModel>|
            sigs.len() == 1 && verify_key_list.len() == 1 && agg@ == #[trigger] aggregate_of(keys, sigs) implies (
            check1 && check2) == concealed_check(sigs[0], keys[0], cs_params@) by {
            let a = aggregate_of(keys, sigs);
            let kd = key_differences(a.avk, keys);
            assert(message_firsts(sigs).len() == kd.len());
            assert(message_seconds(sigs).len() == kd.len());
            assert(pairing_laws(
                gt_sum(pairing_product(g1_views(lhs1@), g2_views(rhs@)), agg.cross.t1@),
                g1_views(lhs1@) + message_firsts(sigs),
                g2_views(rhs@) + kd,
            ));
            assert(pairing_laws(
                gt_sum(pairing_product(g1_views(lhs2@), g2_views(rhs@)), agg.cross.t2@),
                g1_views(lhs2@) + message_seconds(sigs),
                g2_views(rhs@) + kd,
            ));
            lemma_single_member_covers(keys, sigs, cs_params@, false);
            lemma_single_member_covers(keys, sigs, cs_params@, true);
            assert(member_firsts(sigs[0], cs_params@, false) =~= seq![
                sigs[0].signature_commitment.c1,
                sigs[0].message_commitment.c1,
                cs_params@.v1,
                cs_params@.w1,
            ]);
            assert(member_firsts(sigs[0], cs_params@, true) =~= seq![
                sigs[0].signature_commitment.c2,
                sigs[0].message_commitment.c2,
                cs_params@.v2,
                cs_params@.w2,
            ]);
        }
        assert forall|ms: Seq<Seq<u8>>, ss: Seq<Seq<u8>>, auxs: Seq<AuxModel>|
            conversion_inputs(keys, ms, ss, auxs) && agg@ == #[trigger] aggregate_of(
                keys,
                converted(cs_params@, keys, ms, ss, auxs),
            ) implies (check1 && check2) == aggregate_bls(keys, ms, ss) by {
            let sigs = converted(cs_params@, keys, ms, ss, auxs);
            let a = aggregate_of(keys, sigs);
            let kd = key_differences(a.avk, keys);
            assert(message_firsts(sigs).len() == kd.len());
            assert(message_seconds(sigs).len() == kd.len());
            assert(pairing_laws(
                gt_sum(pairing_product(g1_views(lhs1@), g2_views(rhs@)), agg.cross.t1@),
                g1_views(lhs1@) + message_firsts(sigs),
                g2_views(rhs@) + kd,
            ));
            assert(pairing_laws(
                gt_sum(pairing_product(g1_views(lhs2@), g2_views(rhs@)), agg.cross.t2@),
                g1_views(lhs2@) + message_seconds(sigs),
                g2_views(rhs@) + kd,
            ));
            lemma_expanded_aggregate_covers(cs_params@, keys, ms, ss, auxs);
        }
    }
    check1 && check2
}

/// LAggVf: whether the aggregate is the concealed signature plus the local
/// opening, component by component, and the two pairing equations of the
/// opening together with the concealed signature hold.
pub fn local_verify(
    verify_key: &VerifyKey,
    aggregate_signature: &AggregateSignature,
    local_opening: &LocalAggregateOpening,
    concealed_signature: &ConcealedSignature,
    cs_params: &CSetupParameters,
) -> (r: bool)
    ensures
        r == (local_binding(aggregate_signature@, local_opening@, concealed_signature@)
            && local_pairing_check(
            verify_key@,
            aggregate_signature@,
            local_opening@,
            concealed_signature@,
            cs_params@,
        )),
        local_pairing_check(verify_key@, aggregate_signature@, local_opening@, concealed_signature@, cs_params@)
            == local_merged_check(
            verify_key@,
            aggregate_signature@,
            local_opening@,
            concealed_signature@,
            cs_params@,
        ),
        forall|keys: Seq<Seq<u8>>, sigs: Seq<ConcealedModel>, j: int|
            keys.len() == sigs.len() && 0 <= j < sigs.len() && all_pass(keys, sigs, cs_params@)
                && aggregate_signature@ == aggregate_of(keys, sigs) && local_opening@ == #[trigger] opening_of(
                aggregate_of(keys, sigs).avk,
                keys,
                sigs,
                j,
            ) && concealed_signature@ == sigs[j] && verify_key@ == keys[j] ==> local_pairing_check(
                verify_key@,
                aggregate_signature@,
                local_opening@,
                concealed_signature@,
                cs_params@,
            ),
        forall|keys: Seq<Seq<u8>>, ms: Seq<Seq<u8>>, ss: Seq<Seq<u8>>, auxs: Seq<AuxModel>, j: int|
            conversion_inputs(keys, ms, ss, auxs) && 0 <= j < keys.len() && aggregate_signature@ == aggregate_of(
                keys,
                converted(cs_params@, keys, ms, ss, auxs),
            ) && local_opening@ == #[trigger] opening_of(
                aggregate_of(keys, converted(cs_params@, keys, ms, ss, auxs)).avk,
                keys,
                converted(cs_params@, keys, ms, ss, auxs),
                j,
            ) && concealed_signature@ == converted(cs_params@, keys, ms, ss, auxs)[j] && verify_key@ == keys[j]
                ==> r == (local_binding(aggregate_signature@, local_opening@, concealed_signature@)
                && aggregate_bls(keys, ms, ss)),
{
    let agg = aggregate_signature;
    let lop = local_opening;
    let cs = concealed_signature;

    let sig_sum = cs.signature_commitment.clone_commitment().add(lop.signature_commitment.clone_commitment());
    let msg_sum = cs.message_commitment.clone_commitment().add(lop.message_commitment.clone_commitment());
    let proof_total = cs.proof.clone_proof().add(lop.proof.clone_proof());
    let sig_commit_bind = agg.signature_commitment.equals(&sig_sum);
    let msg_commit_bind = agg.message_commitment.equals(&msg_sum);
    let proof_bind = agg.proof.equals(&proof_total);

    let g2 = g2_generator();
    let rhs = vec![
        g2.duplicate(),
        g2_neg(&agg.avk),
        g2,
        g2_neg(&verify_key.value),
        g2_neg(&lop.proof.z1),
        g2_neg(&lop.proof.z2),
        g2_neg(&cs.proof.z1),
        g2_neg(&cs.proof.z2),
    ];
    let lhs1 = vec![
        lop.signature_commitment.c1.duplicate(),
        lop.message_commitment.c1.duplicate(),
        cs.signature_commitment.c1.duplicate(),
        cs.message_commitment.c1.duplicate(),
        cs_params.v.v1.duplicate(),
        cs_params.w.w1.duplicate(),
        cs_params.v.v1.duplicate(),
        cs_params.w.w1.duplicate(),
    ];
    let lhs2 = vec![
        lop.signature_commitment.c2.duplicate(),
        lop.message_commitment.c2.duplicate(),
        cs.signature_commitment.c2.duplicate(),
        cs.message_commitment.c2.duplicate(),
        cs_params.v.v2.duplicate(),
        cs_params.w.w2.duplicate(),
        cs_params.v.v2.duplicate(),
        cs_params.w.w2.duplicate(),
    ];
    let ghost g2b = g2_generator_bytes();
    assert(g2_views(rhs@) =~= seq![
        g2b,
        g2_negated(agg@.avk),
        g2b,
        g2_negated(verify_key@),
        g2_negated(lop@.proof.z1),
        g2_negated(lop@.proof.z2),
        g2_negated(cs@.proof.z1),
        g2_negated(cs@.proof.z2),
    ]);
    assert(g1_views(lhs1@) =~= seq![
        lop@.signature_commitment.c1,
        lop@.message_commitment.c1,
        cs@.signature_commitment.c1,
        cs@.message_commitment.c1,
        cs_params@.v1,
        cs_params@.w1,
        cs_params@.v1,
        cs_params@.w1,
    ]);
    assert(g1_views(lhs2@) =~= seq![
        lop@.signature_commitment.c2,
        lop@.message_commitment.c2,
        cs@.signature_commitment.c2,
        cs@.message_commitment.c2,
        cs_params@.v2,
        cs_params@.w2,
        cs_params@.v2,
        cs_params@.w2,
    ]);
    let check1 = product_is_identity(&lhs1, &rhs, Some(&lop.cross.t1));
    let check2 = product_is_identity(&lhs2, &rhs, Some(&lop.cross.t2));
    proof {
        lemma_local_merge(
            lop@.signature_commitment.c1,
            lop@.message_commitment.c1,
            cs@.signature_commitment.c1,
            cs@.message_commitment.c1,
            cs_params@.v1,
            cs_params@.w1,
            agg@.avk,
            verify_key@,
            lop@.proof.z1,
            lop@.proof.z2,
            cs@.proof.z1,
            cs@.proof.z2,
        );
        lemma_local_merge(
            lop@.signature_commitment.c2,
            lop@.message_commitment.c2,
            cs@.signature_commitment.c2,
            cs@.message_commitment.c2,
            cs_params@.v2,
            cs_params@.w2,
            agg@.avk,
            verify_key@,
            lop@.proof.z1,
            lop@.proof.z2,
            cs@.proof.z1,
            cs@.proof.z2,
        );
        assert forall|keys: Seq<Seq<u8>>, sigs: Seq<ConcealedModel>, j: int|
            keys.len() == sigs.len() && 0 <= j < sigs.len() && all_pass(keys, sigs, cs_params@)
                && agg@ == aggregate_of(keys, sigs) && lop@ == #[trigger] opening_of(
                aggregate_of(keys, sigs).avk,
                keys,
                sigs,
                j,
            ) && cs@ == sigs[j] && verify_key@ == keys[j] implies check1 && check2 by {
            let kd = key_differences(aggregate_of(keys, sigs).avk, keys).remove(j);
            assert(message_firsts(sigs).remove(j).len() == kd.len());
            assert(message_seconds(sigs).remove(j).len() == kd.len());
            assert(pairing_laws(
                gt_sum(pairing_product(g1_views(lhs1@), g2_views(rhs@)), lop.cross.t1@),
                g1_views(lhs1@) + message_firsts(sigs).remove(j),
                g2_views(rhs@) + kd,
            ));
            assert(pairing_laws(
                gt_sum(pairing_product(g1_views(lhs2@), g2_views(rhs@)), lop.cross.t2@),
                g1_views(lhs2@) + message_seconds(sigs).remove(j),
                g2_views(rhs@) + kd,
            ));
            lemma_local_covers(keys, sigs, cs_params@, false, j);
            lemma_local_covers(keys, sigs, cs_params@, true, j);
        }
        assert forall|keys: Seq<Seq<u8>>, ms: Seq<Seq<u8>>, ss: Seq<Seq<u8>>, auxs: Seq<AuxModel>, j: int|
            conversion_inputs(keys, ms, ss, auxs) && 0 <= j < keys.len() && agg@ == aggregate_of(
                keys,
                converted(cs_params@, keys, ms, ss, auxs),
            ) && lop@ == #[trigger] opening_of(
                aggregate_of(keys, converted(cs_params@, keys, ms, ss, auxs)).avk,
                keys,
                converted(cs_params@, keys, ms, ss, auxs),
                j,
            ) && cs@ == converted(cs_params@, keys, ms, ss, auxs)[j] && verify_key@ == keys[j] implies (check1
            && check2) == aggregate_bls(keys, ms, ss) by {
            let sigs = converted(cs_params@, keys, ms, ss, auxs);
            let kd = key_differences(aggregate_of(keys, sigs).avk, keys).remove(j);
            assert(message_firsts(sigs).remove(j).len() == kd.len());
            assert(message_seconds(sigs).remove(j).len() == kd.len());
            assert(pairing_laws(
                gt_sum(pairing_product(g1_views(lhs1@), g2_views(rhs@)), lop.cross.t1@),
                g1_views(lhs1@) + message_firsts(sigs).remove(j),
                g2_views(rhs@) + kd,
            ));
            assert(pairing_laws(
                gt_sum(pairing_product(g1_views(lhs2@), g2_views(rhs@)), lop.cross.t2@),
                g1_views(lhs2@) + message_seconds(sigs).remove(j),
                g2_views(rhs@) + kd,
            ));
            lemma_expanded_local_covers(cs_params@, keys, ms, ss, auxs, j);
        }
    }

    msg_commit_bind && sig_commit_bind && proof_bind && check1 && check2
}

} // verus!
