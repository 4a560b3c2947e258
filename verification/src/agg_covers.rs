use vstd::prelude::*;

use crate::agg_forms::{
    aggregate_pairs, cross_pairs, lemma_aggregate_forms, lemma_local_forms, local_pairs, member_pairs, members,
};
use crate::aggregate::{
    aggregate_of, commitment_prefix_except, key_differences, opening_of, proof_prefix_except, message_commitments, message_firsts, message_seconds, proofs,
    signature_commitments,
};
use crate::bilinear::{
    firsts_of, form, forms_total, g1_fits, g1_value, g2_fits, g2_value, identity_cover, pairs_fit,
    product_of, seconds_of, value_cover,
};
use crate::curve::{g2_negated, gt_is_identity, pairing_product};
use crate::fold_terms::{
    g1_fold_except, g2_fold_except, lemma_g1_fold_fits, lemma_g1_fold_value, lemma_g2_fold_fits, lemma_g2_fold_value,
    lemma_key_fold_fits, lemma_key_fold_value, pick, pick_z,
};
use crate::params::g2_generator_bytes;
use crate::setup::SetupModel;
use crate::types::ConcealedModel;
use crate::verify::{concealed_check, key_sum};

verus! {

/// `v_k` of the parameters: `v1`, or `v2` where `second`.
pub open spec fn pick_v(p: SetupModel, second: bool) -> Seq<u8> {
    if second { p.v2 } else { p.v1 }
}

/// `w_k` of the parameters.
pub open spec fn pick_w(p: SetupModel, second: bool) -> Seq<u8> {
    if second { p.w2 } else { p.w1 }
}

/// The bases of G1 of an aggregate's equation `k`: the signature
/// commitments' points, the message commitments' points, `v_k` and `w_k`.
pub open spec fn aggregate_g1_bases(sigs: Seq<ConcealedModel>, p: SetupModel, second: bool) -> Seq<Seq<u8>> {
    let n = sigs.len() as int;
    Seq::new(
        (2 * n + 2) as nat,
        |k: int|
            if k < n {
                pick(sigs[k].signature_commitment, second)
            } else if k < 2 * n {
                pick(sigs[k - n].message_commitment, second)
            } else if k == 2 * n {
                pick_v(p, second)
            } else {
                pick_w(p, second)
            },
    )
}

/// The bases of G2 of an aggregate's equations: `g2`, the keys, the first
/// proof points and the second ones.
pub open spec fn aggregate_g2_bases(keys: Seq<Seq<u8>>, sigs: Seq<ConcealedModel>) -> Seq<Seq<u8>> {
    let n = sigs.len() as int;
    Seq::new(
        (1 + 3 * n) as nat,
        |k: int|
            if k == 0 {
                g2_generator_bytes()
            } else if k < 1 + n {
                keys[k - 1]
            } else if k < 1 + 2 * n {
                sigs[k - 1 - n].proof.z1
            } else {
                sigs[k - 1 - 2 * n].proof.z2
            },
    )
}

/// The G1 points of the equation `k` of the concealed signature `cs`.
pub open spec fn member_firsts(cs: ConcealedModel, p: SetupModel, second: bool) -> Seq<Seq<u8>> {
    seq![
        pick(cs.signature_commitment, second),
        pick(cs.message_commitment, second),
        pick_v(p, second),
        pick_w(p, second),
    ]
}

/// The G2 points of the equations of a concealed signature under `vk`.
pub open spec fn member_seconds(cs: ConcealedModel, vk: Seq<u8>) -> Seq<Seq<u8>> {
    seq![g2_generator_bytes(), g2_negated(vk), g2_negated(cs.proof.z1), g2_negated(cs.proof.z2)]
}

/// The message commitments' points `C_M,k` of the signers.
pub open spec fn message_points(sigs: Seq<ConcealedModel>, second: bool) -> Seq<Seq<u8>> {
    if second { message_seconds(sigs) } else { message_firsts(sigs) }
}

/// The pairs of the signer at `j` write its equation.
proof fn lemma_member_writes(keys: Seq<Seq<u8>>, sigs: Seq<ConcealedModel>, p: SetupModel, second: bool, j: int)
    requires
        keys.len() == sigs.len(),
        0 <= j < sigs.len(),
    ensures
        pairs_fit(member_pairs(sigs.len(), j), (2 * sigs.len() + 2) as nat, (1 + 3 * sigs.len()) as nat),
        product_of(member_pairs(sigs.len(), j), aggregate_g1_bases(sigs, p, second), aggregate_g2_bases(keys, sigs))
            == pairing_product(member_firsts(sigs[j], p, second), member_seconds(sigs[j], keys[j])),
{
    reveal_with_fuel(g1_value, 2);
    reveal_with_fuel(g2_value, 2);
    reveal_with_fuel(g1_fits, 2);
    reveal_with_fuel(g2_fits, 2);
    let n = sigs.len();
    let ps = member_pairs(n, j);
    let bp = aggregate_g1_bases(sigs, p, second);
    let bq = aggregate_g2_bases(keys, sigs);
    assert(bp[j] == pick(sigs[j].signature_commitment, second));
    assert(bp[n + j] == pick(sigs[j].message_commitment, second));
    assert(bq[1 + j] == keys[j]);
    assert(bq[1 + n + j] == sigs[j].proof.z1);
    assert(bq[1 + 2 * n + j] == sigs[j].proof.z2);
    assert(firsts_of(ps, bp) =~= member_firsts(sigs[j], p, second));
    assert(seconds_of(ps, bq) =~= member_seconds(sigs[j], keys[j]));
}

/// The pairs of an aggregate write its equation `k` with its cross term.
proof fn lemma_aggregate_writes(keys: Seq<Seq<u8>>, sigs: Seq<ConcealedModel>, p: SetupModel, second: bool)
    requires
        keys.len() == sigs.len(),
        sigs.len() >= 1,
    ensures
        ({
            let n = sigs.len();
            let agg = aggregate_of(keys, sigs);
            let ps = aggregate_pairs(n) + cross_pairs(n);
            &&& pairs_fit(ps, (2 * n + 2) as nat, (1 + 3 * n) as nat)
            &&& firsts_of(ps, aggregate_g1_bases(sigs, p, second)) == seq![
                pick(agg.signature_commitment, second),
                pick(agg.message_commitment, second),
                pick_v(p, second),
                pick_w(p, second),
            ] + message_points(sigs, second)
            &&& seconds_of(ps, aggregate_g2_bases(keys, sigs)) == seq![
                g2_generator_bytes(),
                g2_negated(agg.avk),
                g2_negated(agg.proof.z1),
                g2_negated(agg.proof.z2),
            ] + key_differences(agg.avk, keys)
        }),
{
    reveal_with_fuel(g1_value, 2);
    reveal_with_fuel(g2_value, 2);
    reveal_with_fuel(g1_fits, 2);
    reveal_with_fuel(g2_fits, 2);
    let n = sigs.len();
    let agg = aggregate_of(keys, sigs);
    let bp = aggregate_g1_bases(sigs, p, second);
    let bq = aggregate_g2_bases(keys, sigs);
    let ps = aggregate_pairs(n) + cross_pairs(n);
    lemma_g1_fold_fits(0, n as int, (2 * n + 2) as nat);
    lemma_g1_fold_fits(n, n as int, (2 * n + 2) as nat);
    lemma_key_fold_fits(n as int, (1 + 3 * n) as nat);
    lemma_g2_fold_fits(1 + n, n as int, (1 + 3 * n) as nat);
    lemma_g2_fold_fits(1 + 2 * n, n as int, (1 + 3 * n) as nat);
    assert(pairs_fit(ps, (2 * n + 2) as nat, (1 + 3 * n) as nat)) by {
        assert forall|i: int| 0 <= i < ps.len() implies g1_fits(#[trigger] ps[i].0, (2 * n + 2) as nat)
            && g2_fits(ps[i].1, (1 + 3 * n) as nat) by {
            if i >= 4 {
                assert(ps[i] == cross_pairs(n)[i - 4]);
            }
        }
    }
    let scs = signature_commitments(sigs);
    let mcs = message_commitments(sigs);
    assert forall|k: int| 0 <= k < scs.len() implies bp[0 + k] == pick(#[trigger] scs[k], second) by {}
    assert forall|k: int| 0 <= k < mcs.len() implies bp[n + k] == pick(#[trigger] mcs[k], second) by {}
    lemma_g1_fold_value(scs, second, 0, bp, n as int);
    lemma_g1_fold_value(mcs, second, n, bp, n as int);
    let zs = proofs(sigs);
    assert forall|k: int| 0 <= k < zs.len() implies bq[(1 + n) + k] == pick_z(#[trigger] zs[k], false) by {}
    assert forall|k: int| 0 <= k < zs.len() implies bq[(1 + 2 * n) + k] == pick_z(#[trigger] zs[k], true) by {}
    lemma_g2_fold_value(zs, false, 1 + n, bq, n as int);
    lemma_g2_fold_value(zs, true, 1 + 2 * n, bq, n as int);
    assert forall|k: int| 0 <= k < keys.len() implies bq[1 + k] == #[trigger] keys[k] by {}
    lemma_key_fold_value(keys, bq, n as int);
    assert(agg.avk == key_sum(keys));
    assert(firsts_of(ps, bp) =~= seq![
        pick(agg.signature_commitment, second),
        pick(agg.message_commitment, second),
        pick_v(p, second),
        pick_w(p, second),
    ] + message_points(sigs, second)) by {
        assert forall|i: int| 4 <= i < ps.len() implies ps[i] == cross_pairs(n)[i - 4] by {}
    }
    assert(seconds_of(ps, bq) =~= seq![
        g2_generator_bytes(),
        g2_negated(agg.avk),
        g2_negated(agg.proof.z1),
        g2_negated(agg.proof.z2),
    ] + key_differences(agg.avk, keys)) by {
        assert forall|i: int| 4 <= i < ps.len() implies ps[i] == cross_pairs(n)[i - 4] by {}
    }
}

/// Where every signer passes its check, each signer's pairs have the
/// identity as their product.
proof fn lemma_members_pass(keys: Seq<Seq<u8>>, sigs: Seq<ConcealedModel>, p: SetupModel, second: bool)
    requires
        keys.len() == sigs.len(),
        forall|i: int| 0 <= i < sigs.len() ==> concealed_check(#[trigger] sigs[i], keys[i], p),
    ensures
        forall|j: int|
            0 <= j < members(sigs.len()).len() ==> pairs_fit(
                #[trigger] members(sigs.len())[j],
                aggregate_g1_bases(sigs, p, second).len(),
                aggregate_g2_bases(keys, sigs).len(),
            ) && gt_is_identity(
                product_of(members(sigs.len())[j], aggregate_g1_bases(sigs, p, second), aggregate_g2_bases(keys, sigs)),
            ),
{
    let n = sigs.len();
    let bp = aggregate_g1_bases(sigs, p, second);
    let bq = aggregate_g2_bases(keys, sigs);
    assert forall|j: int| 0 <= j < members(n).len() implies pairs_fit(
        #[trigger] members(n)[j],
        bp.len(),
        bq.len(),
    ) && gt_is_identity(product_of(members(n)[j], bp, bq)) by {
        lemma_member_writes(keys, sigs, p, second, j);
        assert(concealed_check(sigs[j], keys[j], p));
        if second {
            assert(member_firsts(sigs[j], p, second) =~= seq![
                sigs[j].signature_commitment.c2,
                sigs[j].message_commitment.c2,
                p.v2,
                p.w2,
            ]);
        } else {
            assert(member_firsts(sigs[j], p, second) =~= seq![
                sigs[j].signature_commitment.c1,
                sigs[j].message_commitment.c1,
                p.v1,
                p.w1,
            ]);
        }
    }
}

/// Where every signer's concealed signature passes its check, the pairs of
/// the aggregate's equation `k` add up from those of the signers.
pub proof fn lemma_aggregate_covers(keys: Seq<Seq<u8>>, sigs: Seq<ConcealedModel>, p: SetupModel, second: bool)
    requires
        keys.len() == sigs.len(),
        sigs.len() >= 1,
        forall|i: int| 0 <= i < sigs.len() ==> concealed_check(#[trigger] sigs[i], keys[i], p),
    ensures
        ({
            let agg = aggregate_of(keys, sigs);
            identity_cover(
                seq![
                    pick(agg.signature_commitment, second),
                    pick(agg.message_commitment, second),
                    pick_v(p, second),
                    pick_w(p, second),
                ] + message_points(sigs, second),
                seq![
                    g2_generator_bytes(),
                    g2_negated(agg.avk),
                    g2_negated(agg.proof.z1),
                    g2_negated(agg.proof.z2),
                ] + key_differences(agg.avk, keys),
                aggregate_g1_bases(sigs, p, second),
                aggregate_g2_bases(keys, sigs),
                aggregate_pairs(sigs.len()) + cross_pairs(sigs.len()),
                members(sigs.len()),
            )
        }),
{
    let n = sigs.len();
    lemma_aggregate_writes(keys, sigs, p, second);
    let bp = aggregate_g1_bases(sigs, p, second);
    let bq = aggregate_g2_bases(keys, sigs);
    lemma_members_pass(keys, sigs, p, second);
    assert forall|s: int, t: int| #[trigger] form(aggregate_pairs(n) + cross_pairs(n), s, t) == forms_total(
        members(n),
        s,
        t,
    ) by {
        lemma_aggregate_forms(n, s, t);
    }
}

/// The G1 points of the local equation `k` of the signer at `j`.
pub open spec fn local_firsts(keys: Seq<Seq<u8>>, sigs: Seq<ConcealedModel>, p: SetupModel, second: bool, j: int) -> Seq<Seq<u8>> {
    let lo = opening_of(aggregate_of(keys, sigs).avk, keys, sigs, j);
    seq![
        pick(lo.signature_commitment, second),
        pick(lo.message_commitment, second),
        pick(sigs[j].signature_commitment, second),
        pick(sigs[j].message_commitment, second),
        pick_v(p, second),
        pick_w(p, second),
        pick_v(p, second),
        pick_w(p, second),
    ]
}

/// The G2 points of the local equations of the signer at `j`.
pub open spec fn local_seconds(keys: Seq<Seq<u8>>, sigs: Seq<ConcealedModel>, j: int) -> Seq<Seq<u8>> {
    let avk = aggregate_of(keys, sigs).avk;
    let lo = opening_of(avk, keys, sigs, j);
    seq![
        g2_generator_bytes(),
        g2_negated(avk),
        g2_generator_bytes(),
        g2_negated(keys[j]),
        g2_negated(lo.proof.z1),
        g2_negated(lo.proof.z2),
        g2_negated(sigs[j].proof.z1),
        g2_negated(sigs[j].proof.z2),
    ]
}

/// Where every signer passes its check, the pairs of the local equation `k`
/// of the signer at `j`, with the opening's cross term, add up from those of
/// the signers.
pub proof fn lemma_local_covers(keys: Seq<Seq<u8>>, sigs: Seq<ConcealedModel>, p: SetupModel, second: bool, j: int)
    requires
        keys.len() == sigs.len(),
        0 <= j < sigs.len(),
        forall|i: int| 0 <= i < sigs.len() ==> concealed_check(#[trigger] sigs[i], keys[i], p),
    ensures
        identity_cover(
            local_firsts(keys, sigs, p, second, j) + message_points(sigs, second).remove(j),
            local_seconds(keys, sigs, j) + key_differences(aggregate_of(keys, sigs).avk, keys).remove(j),
            aggregate_g1_bases(sigs, p, second),
            aggregate_g2_bases(keys, sigs),
            local_pairs(sigs.len(), j) + cross_pairs(sigs.len()).remove(j),
            members(sigs.len()),
        ),
{
    reveal_with_fuel(g1_value, 2);
    reveal_with_fuel(g2_value, 2);
    reveal_with_fuel(g1_fits, 2);
    reveal_with_fuel(g2_fits, 2);
    let n = sigs.len();
    let agg = aggregate_of(keys, sigs);
    let bp = aggregate_g1_bases(sigs, p, second);
    let bq = aggregate_g2_bases(keys, sigs);
    let cross = cross_pairs(n).remove(j);
    let ps = local_pairs(n, j) + cross;
    lemma_g1_fold_fits(0, n as int, (2 * n + 2) as nat);
    lemma_g1_fold_fits(n, n as int, (2 * n + 2) as nat);
    lemma_key_fold_fits(n as int, (1 + 3 * n) as nat);
    lemma_g2_fold_fits(1 + n, n as int, (1 + 3 * n) as nat);
    lemma_g2_fold_fits(1 + 2 * n, n as int, (1 + 3 * n) as nat);
    assert(g1_fits(g1_fold_except(0, j, n as int), (2 * n + 2) as nat));
    assert(g1_fits(g1_fold_except(n, j, n as int), (2 * n + 2) as nat));
    assert(g2_fits(g2_fold_except(1 + n, j, n as int), (1 + 3 * n) as nat));
    assert(g2_fits(g2_fold_except(1 + 2 * n, j, n as int), (1 + 3 * n) as nat));
    assert forall|i: int| 8 <= i < ps.len() implies ps[i] == cross_pairs(n)[if i - 8 < j { i - 8 } else { i - 7 }] by {}
    assert(pairs_fit(ps, (2 * n + 2) as nat, (1 + 3 * n) as nat)) by {
        assert forall|i: int| 0 <= i < ps.len() implies g1_fits(#[trigger] ps[i].0, (2 * n + 2) as nat)
            && g2_fits(ps[i].1, (1 + 3 * n) as nat) by {
            if i >= 8 {
                assert(ps[i] == cross_pairs(n)[if i - 8 < j { i - 8 } else { i - 7 }]);
            }
        }
    }
    let scs = signature_commitments(sigs);
    let mcs = message_commitments(sigs);
    assert forall|k: int| 0 <= k < scs.len() implies bp[0 + k] == pick(#[trigger] scs[k], second) by {}
    assert forall|k: int| 0 <= k < mcs.len() implies bp[n + k] == pick(#[trigger] mcs[k], second) by {}
    lemma_g1_fold_value(scs, second, 0, bp, n as int);
    lemma_g1_fold_value(mcs, second, n, bp, n as int);
    let zs = proofs(sigs);
    assert forall|k: int| 0 <= k < zs.len() implies bq[(1 + n) + k] == pick_z(#[trigger] zs[k], false) by {}
    assert forall|k: int| 0 <= k < zs.len() implies bq[(1 + 2 * n) + k] == pick_z(#[trigger] zs[k], true) by {}
    lemma_g2_fold_value(zs, false, 1 + n, bq, n as int);
    lemma_g2_fold_value(zs, true, 1 + 2 * n, bq, n as int);
    assert forall|k: int| 0 <= k < keys.len() implies bq[1 + k] == #[trigger] keys[k] by {}
    lemma_key_fold_value(keys, bq, n as int);
    assert(g1_value(g1_fold_except(0, j, n as int), bp) == pick(commitment_prefix_except(scs, j, n as int), second));
    assert(g1_value(g1_fold_except(n, j, n as int), bp) == pick(commitment_prefix_except(mcs, j, n as int), second));
    assert(g2_value(g2_fold_except(1 + n, j, n as int), bq) == pick_z(proof_prefix_except(zs, j, n as int), false));
    assert(g2_value(g2_fold_except(1 + 2 * n, j, n as int), bq) == pick_z(proof_prefix_except(zs, j, n as int), true));
    assert(bp[j] == pick(sigs[j].signature_commitment, second));
    assert(bp[n + j] == pick(sigs[j].message_commitment, second));
    assert(bq[1 + j] == keys[j]);
    assert(bq[1 + n + j] == sigs[j].proof.z1);
    assert(bq[1 + 2 * n + j] == sigs[j].proof.z2);
    assert(firsts_of(ps, bp) =~= local_firsts(keys, sigs, p, second, j) + message_points(sigs, second).remove(j));
    assert(seconds_of(ps, bq) =~= local_seconds(keys, sigs, j) + key_differences(agg.avk, keys).remove(j));
    lemma_members_pass(keys, sigs, p, second);
    assert forall|s: int, t: int| #[trigger] form(ps, s, t) == forms_total(members(n), s, t) by {
        lemma_local_forms(n, j, s, t);
    }
}

/// With one signer, the pairs of the aggregate's equation `k` with its cross
/// term have the exponents of that signer's own equation.
pub proof fn lemma_single_member_covers(keys: Seq<Seq<u8>>, sigs: Seq<ConcealedModel>, p: SetupModel, second: bool)
    requires
        keys.len() == 1,
        sigs.len() == 1,
    ensures
        ({
            let agg = aggregate_of(keys, sigs);
            value_cover(
                seq![
                    pick(agg.signature_commitment, second),
                    pick(agg.message_commitment, second),
                    pick_v(p, second),
                    pick_w(p, second),
                ] + message_points(sigs, second),
                seq![
                    g2_generator_bytes(),
                    g2_negated(agg.avk),
                    g2_negated(agg.proof.z1),
                    g2_negated(agg.proof.z2),
                ] + key_differences(agg.avk, keys),
                aggregate_g1_bases(sigs, p, second),
                aggregate_g2_bases(keys, sigs),
                aggregate_pairs(1) + cross_pairs(1),
                member_pairs(1, 0),
            )
        }),
        product_of(member_pairs(1, 0), aggregate_g1_bases(sigs, p, second), aggregate_g2_bases(keys, sigs))
            == pairing_product(member_firsts(sigs[0], p, second), member_seconds(sigs[0], keys[0])),
{
    lemma_aggregate_writes(keys, sigs, p, second);
    lemma_member_writes(keys, sigs, p, second, 0);
    assert(members(1) =~= seq![member_pairs(1, 0)]);
    assert forall|s: int, t: int| #[trigger] form(aggregate_pairs(1) + cross_pairs(1), s, t) == form(
        member_pairs(1, 0),
        s,
        t,
    ) by {
        lemma_aggregate_forms(1, s, t);
        assert(members(1).drop_last().len() == 0);
        reveal_with_fuel(forms_total, 2);
    }
}

} // verus!
