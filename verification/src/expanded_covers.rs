use vstd::prelude::*;

use crate::agg_covers::{local_firsts, local_seconds, message_points, pick_v, pick_w};
use crate::aggregate::{
    aggregate_of, commitment_prefix_except, key_differences, message_commitments, opening_of,
    proof_prefix_except, proofs, signature_commitments,
};
use crate::bilinear::{
    firsts_of, form, forms_total, g1_fits, g1_value, g2_fits, g2_value, identity_cover, pairs_fit,
    product_of, seconds_of, value_cover, G1Term, G2Term,
};
use crate::conceal::conceal_outcome;
use crate::covers::aux_fits;
use crate::curve::{g2_negated, gt_is_identity, pairing_product};
use crate::expanded::{
    g1_tfold, g1_tfold_except, g2_tfold, g2_tfold_except, lemma_g1_tfold_fits, lemma_g1_tfold_value,
    lemma_g2_tfold_fits, lemma_g2_tfold_value, msg_term, msg_terms, proof_term, proof_terms, sig_term,
    sig_terms,
};
use crate::expanded_forms::{
    expanded_aggregate, expanded_bls, expanded_cross, expanded_local, lemma_expanded_aggregate_form,
    lemma_expanded_local_form,
};
use crate::fold_terms::{key_fold, lemma_key_fold_fits, lemma_key_fold_value, pick, pick_z};
use crate::params::g2_generator_bytes;
use crate::setup::SetupModel;
use crate::types::{AuxModel, ConcealedModel};
use crate::utils::message_point;

verus! {

/// The points that the messages `ms` hash to.
pub open spec fn hashes(ms: Seq<Seq<u8>>) -> Seq<Seq<u8>> {
    ms.map_values(|m: Seq<u8>| message_point(m))
}

/// The concealed signatures of the signatures `ss` on the messages `ms` under
/// the keys `keys`, made with the randomness `auxs`.
pub open spec fn converted(
    p: SetupModel,
    keys: Seq<Seq<u8>>,
    ms: Seq<Seq<u8>>,
    ss: Seq<Seq<u8>>,
    auxs: Seq<AuxModel>,
) -> Seq<ConcealedModel> {
    Seq::new(keys.len(), |i: int| conceal_outcome(p, keys[i], ms[i], ss[i], auxs[i]))
}

/// `ms`, `ss` and `auxs` give one message, signature and randomness in `Fr`
/// to each of the keys.
pub open spec fn conversion_inputs(
    keys: Seq<Seq<u8>>,
    ms: Seq<Seq<u8>>,
    ss: Seq<Seq<u8>>,
    auxs: Seq<AuxModel>,
) -> bool {
    &&& ms.len() == keys.len()
    &&& ss.len() == keys.len()
    &&& auxs.len() == keys.len()
    &&& forall|i: int| 0 <= i < auxs.len() ==> aux_fits(#[trigger] auxs[i])
}

/// The aggregate BLS equation of the signatures `ss` on the messages `ms`
/// under `keys`: `e(s_1, g2) ... e(s_n, g2) e(H(m_1), -vk_1) ... e(H(m_n), -vk_n)`
/// is the identity, that is, `prod e(s_i, g2) = prod e(H(m_i), vk_i)`.
pub open spec fn aggregate_bls(keys: Seq<Seq<u8>>, ms: Seq<Seq<u8>>, ss: Seq<Seq<u8>>) -> bool {
    gt_is_identity(
        pairing_product(
            ss + hashes(ms),
            Seq::new(keys.len(), |i: int| g2_generator_bytes()) + keys.map_values(|k: Seq<u8>| g2_negated(k)),
        ),
    )
}

/// The bases of G1 of the equation `k`: `[v_k, w_k]`, the signatures, the
/// message points.
pub open spec fn expanded_g1_bases(p: SetupModel, ss: Seq<Seq<u8>>, ms: Seq<Seq<u8>>, second: bool) -> Seq<Seq<u8>> {
    seq![pick_v(p, second), pick_w(p, second)] + ss + hashes(ms)
}

/// The bases of G2: `[g2]` and the keys.
pub open spec fn expanded_g2_bases(keys: Seq<Seq<u8>>) -> Seq<Seq<u8>> {
    seq![g2_generator_bytes()] + keys
}

/// Each concealed signature's points are what its terms give over the bases.
proof fn lemma_member_terms(
    p: SetupModel,
    keys: Seq<Seq<u8>>,
    ms: Seq<Seq<u8>>,
    ss: Seq<Seq<u8>>,
    auxs: Seq<AuxModel>,
    second: bool,
)
    requires
        conversion_inputs(keys, ms, ss, auxs),
    ensures
        ({
            let n = keys.len();
            let sigs = converted(p, keys, ms, ss, auxs);
            let bp = expanded_g1_bases(p, ss, ms, second);
            let bq = expanded_g2_bases(keys);
            &&& forall|i: int| 0 <= i < n ==> g1_value(#[trigger] sig_terms(auxs, second)[i], bp) == pick(
                sigs[i].signature_commitment,
                second,
            )
            &&& forall|i: int| 0 <= i < n ==> g1_value(#[trigger] msg_terms(auxs, second)[i], bp) == pick(
                sigs[i].message_commitment,
                second,
            )
            &&& forall|i: int| 0 <= i < n ==> g2_value(#[trigger] proof_terms(auxs, false)[i], bq) == sigs[i].proof.z1
            &&& forall|i: int| 0 <= i < n ==> g2_value(#[trigger] proof_terms(auxs, true)[i], bq) == sigs[i].proof.z2
            &&& forall|i: int| 0 <= i < n ==> g1_fits(#[trigger] sig_terms(auxs, second)[i], (2 + 2 * n) as nat)
            &&& forall|i: int| 0 <= i < n ==> g1_fits(#[trigger] msg_terms(auxs, second)[i], (2 + 2 * n) as nat)
            &&& forall|i: int| 0 <= i < n ==> g2_fits(#[trigger] proof_terms(auxs, false)[i], (1 + n) as nat)
            &&& forall|i: int| 0 <= i < n ==> g2_fits(#[trigger] proof_terms(auxs, true)[i], (1 + n) as nat)
        }),
{
    reveal_with_fuel(g1_value, 4);
    reveal_with_fuel(g2_value, 3);
    reveal_with_fuel(g1_fits, 4);
    reveal_with_fuel(g2_fits, 3);
    let n = keys.len();
    let sigs = converted(p, keys, ms, ss, auxs);
    let bp = expanded_g1_bases(p, ss, ms, second);
    let bq = expanded_g2_bases(keys);
    assert forall|i: int| 0 <= i < n implies {
        &&& g1_value(#[trigger] sig_terms(auxs, second)[i], bp) == pick(sigs[i].signature_commitment, second)
        &&& g1_value(msg_terms(auxs, second)[i], bp) == pick(sigs[i].message_commitment, second)
        &&& g2_value(proof_terms(auxs, false)[i], bq) == sigs[i].proof.z1
        &&& g2_value(proof_terms(auxs, true)[i], bq) == sigs[i].proof.z2
        &&& g1_fits(sig_terms(auxs, second)[i], (2 + 2 * n) as nat)
        &&& g1_fits(msg_terms(auxs, second)[i], (2 + 2 * n) as nat)
        &&& g2_fits(proof_terms(auxs, false)[i], (1 + n) as nat)
        &&& g2_fits(proof_terms(auxs, true)[i], (1 + n) as nat)
    } by {
        assert(aux_fits(auxs[i]));
        assert(sig_terms(auxs, second)[i] == sig_term(n, i, auxs[i], second));
        assert(msg_terms(auxs, second)[i] == msg_term(n, i, auxs[i], second));
        assert(proof_terms(auxs, false)[i] == proof_term(i, auxs[i], false));
        assert(proof_terms(auxs, true)[i] == proof_term(i, auxs[i], true));
        assert(bp[2 + i] == ss[i]);
        assert(bp[2 + n + i] == hashes(ms)[i]);
        assert(bq[1 + i] == keys[i]);
        assert(sigs[i] == conceal_outcome(p, keys[i], ms[i], ss[i], auxs[i]));
    }
}

/// The pairs of the aggregate's equation `k` write it over the bases.
proof fn lemma_expanded_aggregate_writes(
    p: SetupModel,
    keys: Seq<Seq<u8>>,
    ms: Seq<Seq<u8>>,
    ss: Seq<Seq<u8>>,
    auxs: Seq<AuxModel>,
    second: bool,
)
    requires
        conversion_inputs(keys, ms, ss, auxs),
        keys.len() >= 1,
    ensures
        ({
            let n = keys.len();
            let sigs = converted(p, keys, ms, ss, auxs);
            let agg = aggregate_of(keys, sigs);
            let ps = expanded_aggregate(auxs, second) + expanded_cross(auxs, second);
            let bp = expanded_g1_bases(p, ss, ms, second);
            let bq = expanded_g2_bases(keys);
            &&& pairs_fit(ps, bp.len(), bq.len())
            &&& firsts_of(ps, bp) == seq![
                pick(agg.signature_commitment, second),
                pick(agg.message_commitment, second),
                pick_v(p, second),
                pick_w(p, second),
            ] + message_points(sigs, second)
            &&& seconds_of(ps, bq) == seq![
                g2_generator_bytes(),
                g2_negated(agg.avk),
                g2_negated(agg.proof.z1),
                g2_negated(agg.proof.z2),
            ] + key_differences(agg.avk, keys)
        }),
{
    reveal_with_fuel(g1_value, 2);
    reveal_with_fuel(g2_value, 2);
    reveal_with_fuel(g1_fits, 2);
    reveal_with_fuel(g2_fits, 2);
    let n = keys.len();
    let sigs = converted(p, keys, ms, ss, auxs);
    let agg = aggregate_of(keys, sigs);
    let bp = expanded_g1_bases(p, ss, ms, second);
    let bq = expanded_g2_bases(keys);
    let ps = expanded_aggregate(auxs, second) + expanded_cross(auxs, second);
    lemma_member_terms(p, keys, ms, ss, auxs, second);
    let sts = sig_terms(auxs, second);
    let mts = msg_terms(auxs, second);
    let z1s = proof_terms(auxs, false);
    let z2s = proof_terms(auxs, true);
    lemma_g1_tfold_fits(sts, n as int, (2 + 2 * n) as nat);
    lemma_g1_tfold_fits(mts, n as int, (2 + 2 * n) as nat);
    lemma_g2_tfold_fits(z1s, n as int, (1 + n) as nat);
    lemma_g2_tfold_fits(z2s, n as int, (1 + n) as nat);
    lemma_key_fold_fits(n as int, (1 + n) as nat);
    assert forall|i: int| 4 <= i < ps.len() implies ps[i] == expanded_cross(auxs, second)[i - 4] by {}
    assert(pairs_fit(ps, bp.len(), bq.len())) by {
        assert forall|i: int| 0 <= i < ps.len() implies g1_fits(#[trigger] ps[i].0, bp.len()) && g2_fits(
            ps[i].1,
            bq.len(),
        ) by {
            if i >= 4 {
                assert(ps[i].0 == mts[i - 4]);
            }
        }
    }
    let scs = signature_commitments(sigs);
    let mcs = message_commitments(sigs);
    let zs = proofs(sigs);
    lemma_g1_tfold_value(sts, scs, second, bp, n as int);
    lemma_g1_tfold_value(mts, mcs, second, bp, n as int);
    lemma_g2_tfold_value(z1s, zs, false, bq, n as int);
    lemma_g2_tfold_value(z2s, zs, true, bq, n as int);
    assert forall|k: int| 0 <= k < keys.len() implies bq[1 + k] == #[trigger] keys[k] by {}
    lemma_key_fold_value(keys, bq, n as int);
    assert forall|i: int| 4 <= i < ps.len() implies g1_value(#[trigger] ps[i].0, bp) == message_points(sigs, second)[i - 4] by {
        assert(ps[i].0 == mts[i - 4]);
        assert(g1_value(mts[i - 4], bp) == pick(sigs[i - 4].message_commitment, second));
    }
    assert(g1_value(ps[0].0, bp) == pick(agg.signature_commitment, second));
    assert(g1_value(ps[1].0, bp) == pick(agg.message_commitment, second));
    assert(firsts_of(ps, bp) =~= seq![
        pick(agg.signature_commitment, second),
        pick(agg.message_commitment, second),
        pick_v(p, second),
        pick_w(p, second),
    ] + message_points(sigs, second));
    assert(seconds_of(ps, bq) =~= seq![
        g2_generator_bytes(),
        g2_negated(agg.avk),
        g2_negated(agg.proof.z1),
        g2_negated(agg.proof.z2),
    ] + key_differences(agg.avk, keys));
}

/// The pairs of the BLS equations write the aggregate BLS equation.
proof fn lemma_expanded_bls_writes(p: SetupModel, keys: Seq<Seq<u8>>, ms: Seq<Seq<u8>>, ss: Seq<Seq<u8>>)
    requires
        ms.len() == keys.len(),
        ss.len() == keys.len(),
    ensures
        pairs_fit(
            expanded_bls(keys.len(), true),
            expanded_g1_bases(p, ss, ms, true).len(),
            expanded_g2_bases(keys).len(),
        ),
        pairs_fit(
            expanded_bls(keys.len(), false),
            expanded_g1_bases(p, ss, ms, false).len(),
            expanded_g2_bases(keys).len(),
        ),
        gt_is_identity(
            product_of(expanded_bls(keys.len(), true), expanded_g1_bases(p, ss, ms, true), expanded_g2_bases(keys)),
        ) == aggregate_bls(keys, ms, ss),
{
    reveal_with_fuel(g1_value, 2);
    reveal_with_fuel(g2_value, 2);
    reveal_with_fuel(g1_fits, 2);
    reveal_with_fuel(g2_fits, 2);
    let n = keys.len();
    let qs = expanded_bls(n, true);
    let bp = expanded_g1_bases(p, ss, ms, true);
    let bq = expanded_g2_bases(keys);
    assert forall|i: int| 0 <= i < qs.len() implies g1_fits(#[trigger] qs[i].0, bp.len()) && g2_fits(
        qs[i].1,
        bq.len(),
    ) by {}
    assert(firsts_of(qs, bp) =~= ss + hashes(ms));
    assert(seconds_of(qs, bq) =~= Seq::new(n, |i: int| g2_generator_bytes()) + keys.map_values(
        |k: Seq<u8>| g2_negated(k),
    ));
}

/// For honestly converted signatures, the aggregate's first equation adds up
/// to nothing, and its second has the exponents of the aggregate BLS
/// equation.
pub proof fn lemma_expanded_aggregate_covers(
    p: SetupModel,
    keys: Seq<Seq<u8>>,
    ms: Seq<Seq<u8>>,
    ss: Seq<Seq<u8>>,
    auxs: Seq<AuxModel>,
)
    requires
        conversion_inputs(keys, ms, ss, auxs),
        keys.len() >= 1,
    ensures
        ({
            let sigs = converted(p, keys, ms, ss, auxs);
            let agg = aggregate_of(keys, sigs);
            let rhs = seq![
                g2_generator_bytes(),
                g2_negated(agg.avk),
                g2_negated(agg.proof.z1),
                g2_negated(agg.proof.z2),
            ] + key_differences(agg.avk, keys);
            &&& identity_cover(
                seq![
                    agg.signature_commitment.c1,
                    agg.message_commitment.c1,
                    p.v1,
                    p.w1,
                ] + message_points(sigs, false),
                rhs,
                expanded_g1_bases(p, ss, ms, false),
                expanded_g2_bases(keys),
                expanded_aggregate(auxs, false) + expanded_cross(auxs, false),
                Seq::empty(),
            )
            &&& value_cover(
                seq![
                    agg.signature_commitment.c2,
                    agg.message_commitment.c2,
                    p.v2,
                    p.w2,
                ] + message_points(sigs, true),
                rhs,
                expanded_g1_bases(p, ss, ms, true),
                expanded_g2_bases(keys),
                expanded_aggregate(auxs, true) + expanded_cross(auxs, true),
                expanded_bls(keys.len(), true),
            )
            &&& gt_is_identity(
                product_of(expanded_bls(keys.len(), true), expanded_g1_bases(p, ss, ms, true), expanded_g2_bases(keys)),
            ) == aggregate_bls(keys, ms, ss)
        }),
{
    lemma_expanded_aggregate_writes(p, keys, ms, ss, auxs, false);
    lemma_expanded_aggregate_writes(p, keys, ms, ss, auxs, true);
    lemma_expanded_bls_writes(p, keys, ms, ss);
    assert forall|s: int, t: int| #[trigger] form(
        expanded_aggregate(auxs, false) + expanded_cross(auxs, false),
        s,
        t,
    ) == forms_total(Seq::<Seq<(G1Term, G2Term)>>::empty(), s, t) by {
        lemma_expanded_aggregate_form(auxs, false, s, t);
    }
    assert forall|s: int, t: int| #[trigger] form(
        expanded_aggregate(auxs, true) + expanded_cross(auxs, true),
        s,
        t,
    ) == form(expanded_bls(keys.len(), true), s, t) by {
        lemma_expanded_aggregate_form(auxs, true, s, t);
    }
}

/// The pairs of the local equation `k` of the signer at `j` write it over
/// the bases.
proof fn lemma_expanded_local_writes(
    p: SetupModel,
    keys: Seq<Seq<u8>>,
    ms: Seq<Seq<u8>>,
    ss: Seq<Seq<u8>>,
    auxs: Seq<AuxModel>,
    second: bool,
    j: int,
)
    requires
        conversion_inputs(keys, ms, ss, auxs),
        0 <= j < keys.len(),
    ensures
        ({
            let sigs = converted(p, keys, ms, ss, auxs);
            let agg = aggregate_of(keys, sigs);
            let ps = expanded_local(auxs, second, j) + expanded_cross(auxs, second).remove(j);
            let bp = expanded_g1_bases(p, ss, ms, second);
            let bq = expanded_g2_bases(keys);
            &&& pairs_fit(ps, bp.len(), bq.len())
            &&& firsts_of(ps, bp) == local_firsts(keys, sigs, p, second, j) + message_points(sigs, second).remove(j)
            &&& seconds_of(ps, bq) == local_seconds(keys, sigs, j) + key_differences(agg.avk, keys).remove(j)
        }),
{
    reveal_with_fuel(g1_value, 2);
    reveal_with_fuel(g2_value, 2);
    reveal_with_fuel(g1_fits, 2);
    reveal_with_fuel(g2_fits, 2);
    let n = keys.len();
    let sigs = converted(p, keys, ms, ss, auxs);
    let agg = aggregate_of(keys, sigs);
    let lo = opening_of(agg.avk, keys, sigs, j);
    let bp = expanded_g1_bases(p, ss, ms, second);
    let bq = expanded_g2_bases(keys);
    let cross = expanded_cross(auxs, second).remove(j);
    let ps = expanded_local(auxs, second, j) + cross;
    lemma_member_terms(p, keys, ms, ss, auxs, second);
    let sts = sig_terms(auxs, second);
    let mts = msg_terms(auxs, second);
    let z1s = proof_terms(auxs, false);
    let z2s = proof_terms(auxs, true);
    lemma_g1_tfold_fits(sts, n as int, (2 + 2 * n) as nat);
    lemma_g1_tfold_fits(mts, n as int, (2 + 2 * n) as nat);
    lemma_g2_tfold_fits(z1s, n as int, (1 + n) as nat);
    lemma_g2_tfold_fits(z2s, n as int, (1 + n) as nat);
    lemma_key_fold_fits(n as int, (1 + n) as nat);
    assert(g1_fits(g1_tfold_except(sts, j, n as int), (2 + 2 * n) as nat));
    assert(g1_fits(g1_tfold_except(mts, j, n as int), (2 + 2 * n) as nat));
    assert(g2_fits(g2_tfold_except(z1s, j, n as int), (1 + n) as nat));
    assert(g2_fits(g2_tfold_except(z2s, j, n as int), (1 + n) as nat));
    assert forall|i: int| 8 <= i < ps.len() implies ps[i] == expanded_cross(auxs, second)[if i - 8 < j {
        i - 8
    } else {
        i - 7
    }] by {}
    assert(pairs_fit(ps, bp.len(), bq.len())) by {
        assert forall|i: int| 0 <= i < ps.len() implies g1_fits(#[trigger] ps[i].0, bp.len()) && g2_fits(
            ps[i].1,
            bq.len(),
        ) by {
            if i >= 8 {
                let k = if i - 8 < j { i - 8 } else { i - 7 };
                assert(ps[i].0 == mts[k]);
            }
        }
    }
    let scs = signature_commitments(sigs);
    let mcs = message_commitments(sigs);
    let zs = proofs(sigs);
    lemma_g1_tfold_value(sts, scs, second, bp, n as int);
    lemma_g1_tfold_value(mts, mcs, second, bp, n as int);
    lemma_g2_tfold_value(z1s, zs, false, bq, n as int);
    lemma_g2_tfold_value(z2s, zs, true, bq, n as int);
    assert forall|k: int| 0 <= k < keys.len() implies bq[1 + k] == #[trigger] keys[k] by {}
    lemma_key_fold_value(keys, bq, n as int);
    assert(g1_value(g1_tfold_except(sts, j, n as int), bp) == pick(commitment_prefix_except(scs, j, n as int), second));
    assert(g1_value(g1_tfold_except(mts, j, n as int), bp) == pick(commitment_prefix_except(mcs, j, n as int), second));
    assert(g2_value(g2_tfold_except(z1s, j, n as int), bq) == pick_z(proof_prefix_except(zs, j, n as int), false));
    assert(g2_value(g2_tfold_except(z2s, j, n as int), bq) == pick_z(proof_prefix_except(zs, j, n as int), true));
    assert(bq[1 + j] == keys[j]);
    assert forall|i: int| 8 <= i < ps.len() implies g1_value(#[trigger] ps[i].0, bp) == message_points(
        sigs,
        second,
    ).remove(j)[i - 8] by {
        let k = if i - 8 < j { i - 8 } else { i - 7 };
        assert(ps[i].0 == mts[k]);
        assert(g1_value(mts[k], bp) == pick(sigs[k].message_commitment, second));
    }
    assert(firsts_of(ps, bp) =~= local_firsts(keys, sigs, p, second, j) + message_points(sigs, second).remove(j));
    assert(seconds_of(ps, bq) =~= local_seconds(keys, sigs, j) + key_differences(agg.avk, keys).remove(j));
}

/// For an honest local opening of honestly converted signatures, the local
/// first equation adds up to nothing, and the second has the exponents of
/// the aggregate BLS equation.
pub proof fn lemma_expanded_local_covers(
    p: SetupModel,
    keys: Seq<Seq<u8>>,
    ms: Seq<Seq<u8>>,
    ss: Seq<Seq<u8>>,
    auxs: Seq<AuxModel>,
    j: int,
)
    requires
        conversion_inputs(keys, ms, ss, auxs),
        0 <= j < keys.len(),
    ensures
        ({
            let sigs = converted(p, keys, ms, ss, auxs);
            let agg = aggregate_of(keys, sigs);
            let rhs = local_seconds(keys, sigs, j) + key_differences(agg.avk, keys).remove(j);
            &&& identity_cover(
                local_firsts(keys, sigs, p, false, j) + message_points(sigs, false).remove(j),
                rhs,
                expanded_g1_bases(p, ss, ms, false),
                expanded_g2_bases(keys),
                expanded_local(auxs, false, j) + expanded_cross(auxs, false).remove(j),
                Seq::empty(),
            )
            &&& value_cover(
                local_firsts(keys, sigs, p, true, j) + message_points(sigs, true).remove(j),
                rhs,
                expanded_g1_bases(p, ss, ms, true),
                expanded_g2_bases(keys),
                expanded_local(auxs, true, j) + expanded_cross(auxs, true).remove(j),
                expanded_bls(keys.len(), true),
            )
            &&& gt_is_identity(
                product_of(expanded_bls(keys.len(), true), expanded_g1_bases(p, ss, ms, true), expanded_g2_bases(keys)),
            ) == aggregate_bls(keys, ms, ss)
        }),
{
    lemma_expanded_local_writes(p, keys, ms, ss, auxs, false, j);
    lemma_expanded_local_writes(p, keys, ms, ss, auxs, true, j);
    lemma_expanded_bls_writes(p, keys, ms, ss);
    assert forall|s: int, t: int| #[trigger] form(
        expanded_local(auxs, false, j) + expanded_cross(auxs, false).remove(j),
        s,
        t,
    ) == forms_total(Seq::<Seq<(G1Term, G2Term)>>::empty(), s, t) by {
        lemma_expanded_local_form(auxs, false, j, s, t);
    }
    assert forall|s: int, t: int| #[trigger] form(
        expanded_local(auxs, true, j) + expanded_cross(auxs, true).remove(j),
        s,
        t,
    ) == form(expanded_bls(keys.len(), true), s, t) by {
        lemma_expanded_local_form(auxs, true, j, s, t);
    }
}

} // verus!
