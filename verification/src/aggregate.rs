use vstd::prelude::*;

use crate::curve::{
    g1_commutes, g1_identity, g1_views, g2_commutes, g2_difference, g2_identity, g2_sub, g2_views,
    gt_sum, multi_pairing, pairing_product, G1, G2,
};
use crate::keys::VerifyKey;
use crate::params::{g1_identity_bytes, g2_identity_bytes};
use crate::types::{
    commitment_sum, proof_sum, AggregateModel, AggregateSignature, Commitment, CommitmentModel,
    ConcealedModel, ConcealedSignature, Cross, CrossModel, LocalAggregateOpening, OpeningModel,
    Proof, ProofModel,
};
use crate::verify::{key_sum, key_views, local_binding, sum_verify_keys};

verus! {

/// The commitment `(1, 1)` that aggregation starts from.
pub open spec fn identity_commitment() -> CommitmentModel {
    CommitmentModel { c1: g1_identity_bytes(), c2: g1_identity_bytes() }
}

/// The proof `(1, 1)` that aggregation starts from.
pub open spec fn identity_proof() -> ProofModel {
    ProofModel { z1: g2_identity_bytes(), z2: g2_identity_bytes() }
}

/// The sum of the first `i` commitments of `s`, added to the identity one by
/// one.
pub open spec fn commitment_prefix(s: Seq<CommitmentModel>, i: int) -> CommitmentModel
    decreases i,
{
    if i <= 0 {
        identity_commitment()
    } else {
        commitment_sum(commitment_prefix(s, i - 1), s[i - 1])
    }
}

/// The sum of the first `i` commitments of `s`, leaving out the one at `j`.
pub open spec fn commitment_prefix_except(s: Seq<CommitmentModel>, j: int, i: int) -> CommitmentModel
    decreases i,
{
    if i <= 0 {
        identity_commitment()
    } else if i - 1 == j {
        commitment_prefix_except(s, j, i - 1)
    } else {
        commitment_sum(commitment_prefix_except(s, j, i - 1), s[i - 1])
    }
}

/// The sum of the first `i` proofs of `s`, added to the identity one by one.
pub open spec fn proof_prefix(s: Seq<ProofModel>, i: int) -> ProofModel
    decreases i,
{
    if i <= 0 {
        identity_proof()
    } else {
        proof_sum(proof_prefix(s, i - 1), s[i - 1])
    }
}

/// The sum of the first `i` proofs of `s`, leaving out the one at `j`.
pub open spec fn proof_prefix_except(s: Seq<ProofModel>, j: int, i: int) -> ProofModel
    decreases i,
{
    if i <= 0 {
        identity_proof()
    } else if i - 1 == j {
        proof_prefix_except(s, j, i - 1)
    } else {
        proof_sum(proof_prefix_except(s, j, i - 1), s[i - 1])
    }
}

/// The concealed signatures of a list, as values.
pub open spec fn concealed_views(sigs: Seq<ConcealedSignature>) -> Seq<ConcealedModel> {
    sigs.map_values(|c: ConcealedSignature| c@)
}

pub open spec fn signature_commitments(sigs: Seq<ConcealedModel>) -> Seq<CommitmentModel> {
    sigs.map_values(|c: ConcealedModel| c.signature_commitment)
}

pub open spec fn message_commitments(sigs: Seq<ConcealedModel>) -> Seq<CommitmentModel> {
    sigs.map_values(|c: ConcealedModel| c.message_commitment)
}

pub open spec fn proofs(sigs: Seq<ConcealedModel>) -> Seq<ProofModel> {
    sigs.map_values(|c: ConcealedModel| c.proof)
}

/// The first points `C_M,1` of the message commitments.
pub open spec fn message_firsts(sigs: Seq<ConcealedModel>) -> Seq<Seq<u8>> {
    sigs.map_values(|c: ConcealedModel| c.message_commitment.c1)
}

/// The second points `C_M,2` of the message commitments.
pub open spec fn message_seconds(sigs: Seq<ConcealedModel>) -> Seq<Seq<u8>> {
    sigs.map_values(|c: ConcealedModel| c.message_commitment.c2)
}

/// The points `avk - vk_i`.
pub open spec fn key_differences(avk: Seq<u8>, keys: Seq<Seq<u8>>) -> Seq<Seq<u8>> {
    keys.map_values(|k: Seq<u8>| g2_difference(avk, k))
}

/// CAgg: the aggregate of the concealed signatures `sigs` under the keys
/// `keys`.
pub open spec fn aggregate_of(keys: Seq<Seq<u8>>, sigs: Seq<ConcealedModel>) -> AggregateModel {
    let avk = key_sum(keys);
    let n = sigs.len() as int;
    AggregateModel {
        signature_commitment: commitment_prefix(signature_commitments(sigs), n),
        message_commitment: commitment_prefix(message_commitments(sigs), n),
        proof: proof_prefix(proofs(sigs), n),
        avk,
        cross: CrossModel {
            t1: pairing_product(message_firsts(sigs), key_differences(avk, keys)),
            t2: pairing_product(message_seconds(sigs), key_differences(avk, keys)),
        },
    }
}

/// LAggOp: the local opening for the signer at `j` of an aggregate whose
/// aggregate key is `avk`.
pub open spec fn opening_of(
    avk: Seq<u8>,
    keys: Seq<Seq<u8>>,
    sigs: Seq<ConcealedModel>,
    j: int,
) -> OpeningModel {
    let n = sigs.len() as int;
    OpeningModel {
        signature_commitment: commitment_prefix_except(signature_commitments(sigs), j, n),
        message_commitment: commitment_prefix_except(message_commitments(sigs), j, n),
        proof: proof_prefix_except(proofs(sigs), j, n),
        cross: CrossModel {
            t1: pairing_product(message_firsts(sigs).remove(j), key_differences(avk, keys).remove(j)),
            t2: pairing_product(message_seconds(sigs).remove(j), key_differences(avk, keys).remove(j)),
        },
    }
}

/// The cross term of the aggregate `agg` is that of the local opening for the
/// signer at `j` plus `e(C_M,k^j, avk - vk_j)`, for `k = 1, 2` (GT written
/// additively).
pub open spec fn cross_splits_at(
    agg: AggregateModel,
    keys: Seq<Seq<u8>>,
    sigs: Seq<ConcealedModel>,
    j: int,
) -> bool {
    let lo = opening_of(agg.avk, keys, sigs, j);
    let d = g2_difference(agg.avk, keys[j]);
    &&& agg.cross.t1 == gt_sum(
        lo.cross.t1,
        pairing_product(seq![sigs[j].message_commitment.c1], seq![d]),
    )
    &&& agg.cross.t2 == gt_sum(
        lo.cross.t2,
        pairing_product(seq![sigs[j].message_commitment.c2], seq![d]),
    )
}

/// Appending the point at `i` of `target` to a list that views as the first
/// `i` points of `target` gives the first `i + 1`.
proof fn lemma_g1_views_push(prev: Seq<G1>, p: G1, target: Seq<Seq<u8>>, i: int)
    requires
        g1_views(prev) == target.take(i),
        0 <= i < target.len(),
        p@ == target[i],
    ensures
        g1_views(prev.push(p)) == target.take(i + 1),
{
    assert(target.take(i).len() == i);
    assert(g1_views(prev).len() == prev.len());
    assert forall|k: int| 0 <= k < i + 1 implies g1_views(prev.push(p))[k] == target.take(i + 1)[k] by {
        if k < i {
            assert(g1_views(prev)[k] == target.take(i)[k]);
        }
    }
    assert(g1_views(prev.push(p)) =~= target.take(i + 1));
}

/// The G2 counterpart of `lemma_g1_views_push`.
proof fn lemma_g2_views_push(prev: Seq<G2>, p: G2, target: Seq<Seq<u8>>, i: int)
    requires
        g2_views(prev) == target.take(i),
        0 <= i < target.len(),
        p@ == target[i],
    ensures
        g2_views(prev.push(p)) == target.take(i + 1),
{
    assert(target.take(i).len() == i);
    assert(g2_views(prev).len() == prev.len());
    assert forall|k: int| 0 <= k < i + 1 implies g2_views(prev.push(p))[k] == target.take(i + 1)[k] by {
        if k < i {
            assert(g2_views(prev)[k] == target.take(i)[k]);
        }
    }
    assert(g2_views(prev.push(p)) =~= target.take(i + 1));
}

/// The aggregate key of an aggregate is the sum of the keys it was made
/// with, so the key check of CAggVf accepts the same list of keys.
pub proof fn lemma_aggregate_key_is_key_sum(keys: Seq<Seq<u8>>, sigs: Seq<ConcealedModel>)
    ensures
        aggregate_of(keys, sigs).avk == key_sum(keys),
{
}

/// CAgg: aggregates the concealed signatures of the signers with the keys
/// `verify_key_list`. The two lists must have the same length, and must not
/// be empty.
pub fn aggregate_concealed_signatures(
    verify_key_list: &[VerifyKey],
    signature_list: &[ConcealedSignature],
) -> (agg: AggregateSignature)
    requires
        verify_key_list.len() == signature_list.len(),
        verify_key_list.len() > 0,
    ensures
        agg@ == aggregate_of(key_views(verify_key_list@), concealed_views(signature_list@)),
        forall|j: int|
            0 <= j < signature_list.len() ==> #[trigger] cross_splits_at(
                agg@,
                key_views(verify_key_list@),
                concealed_views(signature_list@),
                j,
            ),
{
    let ghost keys = key_views(verify_key_list@);
    let ghost sigs = concealed_views(signature_list@);
    let n = signature_list.len();
    let avk = sum_verify_keys(verify_key_list);

    let mut agg_sig_commitment = Commitment { c1: g1_identity(), c2: g1_identity() };
    let mut agg_msg_commitment = Commitment { c1: g1_identity(), c2: g1_identity() };
    let mut agg_proof = Proof { z1: g2_identity(), z2: g2_identity() };

    let mut t1_lhs: Vec<G1> = Vec::new();
    let mut t1_rhs: Vec<G2> = Vec::new();
    let mut t2_lhs: Vec<G1> = Vec::new();
    let mut t2_rhs: Vec<G2> = Vec::new();

    let mut i: usize = 0;
    while i < n
        invariant
            n == signature_list.len(),
            n == verify_key_list.len(),
            i <= n,
            keys == key_views(verify_key_list@),
            sigs == concealed_views(signature_list@),
            sigs.len() == n,
            keys.len() == n,
            avk@ == key_sum(keys),
            agg_sig_commitment@ == commitment_prefix(signature_commitments(sigs), i as int),
            agg_msg_commitment@ == commitment_prefix(message_commitments(sigs), i as int),
            agg_proof@ == proof_prefix(proofs(sigs), i as int),
            g1_views(t1_lhs@) == message_firsts(sigs).take(i as int),
            g1_views(t2_lhs@) == message_seconds(sigs).take(i as int),
            g2_views(t1_rhs@) == key_differences(avk@, keys).take(i as int),
            g2_views(t2_rhs@) == key_differences(avk@, keys).take(i as int),
        decreases n - i,
    {
        let verify_key = &verify_key_list[i];
        let concealed_signature = &signature_list[i];

        agg_msg_commitment = agg_msg_commitment.add(concealed_signature.message_commitment.clone_commitment());
        agg_sig_commitment = agg_sig_commitment.add(concealed_signature.signature_commitment.clone_commitment());
        agg_proof = agg_proof.add(concealed_signature.proof.clone_proof());

        let diff = g2_sub(&avk, &verify_key.value);
        let ghost prev_t1_lhs = t1_lhs@;
        let ghost prev_t2_lhs = t2_lhs@;
        let ghost prev_t1_rhs = t1_rhs@;
        let ghost prev_t2_rhs = t2_rhs@;
        let first = concealed_signature.message_commitment.c1.duplicate();
        let second = concealed_signature.message_commitment.c2.duplicate();
        let diff_copy = diff.duplicate();
        proof {
            lemma_g1_views_push(prev_t1_lhs, first, message_firsts(sigs), i as int);
            lemma_g1_views_push(prev_t2_lhs, second, message_seconds(sigs), i as int);
            lemma_g2_views_push(prev_t1_rhs, diff_copy, key_differences(avk@, keys), i as int);
            lemma_g2_views_push(prev_t2_rhs, diff, key_differences(avk@, keys), i as int);
        }
        t1_lhs.push(first);
        t1_rhs.push(diff_copy);
        t2_lhs.push(second);
        t2_rhs.push(diff);
        i = i + 1;
    }
    assert(message_firsts(sigs).take(n as int) =~= message_firsts(sigs));
    assert(message_seconds(sigs).take(n as int) =~= message_seconds(sigs));
    assert(key_differences(avk@, keys).take(n as int) =~= key_differences(avk@, keys));

    let agg_cross = Cross {
        t1: multi_pairing(&t1_lhs, &t1_rhs),
        t2: multi_pairing(&t2_lhs, &t2_rhs),
    };
    assert forall|j: int| 0 <= j < n implies #[trigger] cross_splits_at(
        AggregateModel {
            signature_commitment: agg_sig_commitment@,
            message_commitment: agg_msg_commitment@,
            proof: agg_proof@,
            avk: avk@,
            cross: agg_cross@,
        },
        keys,
        sigs,
        j,
    ) by {
        assert(pairing_product(g1_views(t1_lhs@).remove(j), g2_views(t1_rhs@).remove(j))
            == pairing_product(message_firsts(sigs).remove(j), key_differences(avk@, keys).remove(j)));
        assert(pairing_product(g1_views(t2_lhs@).remove(j), g2_views(t2_rhs@).remove(j))
            == pairing_product(message_seconds(sigs).remove(j), key_differences(avk@, keys).remove(j)));
        assert(g1_views(t1_lhs@)[j] == t1_lhs@[j]@);
        assert(g1_views(t2_lhs@)[j] == t2_lhs@[j]@);
        assert(g2_views(t1_rhs@)[j] == t1_rhs@[j]@);
        assert(g2_views(t2_rhs@)[j] == t2_rhs@[j]@);
    }

    AggregateSignature {
        signature_commitment: agg_sig_commitment,
        message_commitment: agg_msg_commitment,
        proof: agg_proof,
        avk,
        cross: agg_cross,
    }
}

/// Leaving out the element at `j < i` of the first `i + 1` elements is leaving
/// it out of the first `i`, then appending the element at `i`.
proof fn lemma_take_remove_push<A>(t: Seq<A>, j: int, i: int)
    requires
        0 <= j < i < t.len(),
    ensures
        t.take(i + 1).remove(j) == t.take(i).remove(j).push(t[i]),
{
    assert(t.take(i + 1).remove(j) =~= t.take(i).remove(j).push(t[i]));
}

/// Leaving out the last of the first `j + 1` elements leaves the first `j`.
proof fn lemma_take_remove_last<A>(t: Seq<A>, j: int)
    requires
        0 <= j < t.len(),
    ensures
        t.take(j + 1).remove(j) == t.take(j),
{
    assert(t.take(j + 1).remove(j) =~= t.take(j));
}

proof fn lemma_g1_views_append(prev: Seq<G1>, p: G1)
    ensures
        g1_views(prev.push(p)) == g1_views(prev).push(p@),
{
    assert(g1_views(prev.push(p)) =~= g1_views(prev).push(p@));
}

proof fn lemma_g2_views_append(prev: Seq<G2>, p: G2)
    ensures
        g2_views(prev.push(p)) == g2_views(prev).push(p@),
{
    assert(g2_views(prev.push(p)) =~= g2_views(prev).push(p@));
}

/// The list `v` views as the first `i` elements of `t`, leaving out the one
/// at `j` once `i` is past it.
pub open spec fn views_skipping(v: Seq<Seq<u8>>, t: Seq<Seq<u8>>, j: int, i: int) -> bool {
    if i <= j {
        v == t.take(i)
    } else {
        v == t.take(i).remove(j)
    }
}

/// One step of a list that skips `j`: at `i == j` nothing is appended, at any
/// other `i` the element at `i` is.
proof fn lemma_views_skipping_step(v: Seq<Seq<u8>>, t: Seq<Seq<u8>>, j: int, i: int)
    requires
        views_skipping(v, t, j, i),
        0 <= i < t.len(),
        0 <= j < t.len(),
    ensures
        i == j ==> views_skipping(v, t, j, i + 1),
        i != j ==> views_skipping(v.push(t[i]), t, j, i + 1),
{
    if i < j {
        assert(t.take(i).push(t[i]) =~= t.take(i + 1));
    } else if i == j {
        lemma_take_remove_last(t, j);
    } else {
        lemma_take_remove_push(t, j, i);
    }
}

/// The sums that a local opening keeps for the commitments `s`, leaving out
/// the one at `j`, after the first `i`: `acc` is that sum; before `j` it is
/// also the full sum, and after `j` adding the commitment at `j` to it gives
/// the full sum. It commutes with every point.
pub open spec fn commitment_skip_state(acc: CommitmentModel, s: Seq<CommitmentModel>, j: int, i: int) -> bool {
    &&& acc == commitment_prefix_except(s, j, i)
    &&& i <= j ==> acc == commitment_prefix(s, i)
    &&& i > j ==> commitment_sum(s[j], acc) == commitment_prefix(s, i)
    &&& g1_commutes(acc.c1)
    &&& g1_commutes(acc.c2)
}

/// The proof counterpart of `commitment_skip_state`.
pub open spec fn proof_skip_state(acc: ProofModel, s: Seq<ProofModel>, j: int, i: int) -> bool {
    &&& acc == proof_prefix_except(s, j, i)
    &&& i <= j ==> acc == proof_prefix(s, i)
    &&& i > j ==> proof_sum(s[j], acc) == proof_prefix(s, i)
    &&& g2_commutes(acc.z1)
    &&& g2_commutes(acc.z2)
}

/// LAggOp: the local opening of `aggregate_signature` for the signer at
/// `index`: the aggregate of every other concealed signature, with its cross
/// terms under the aggregate key. The two lists must have the same length
/// and `index` must be a position in them.
///
/// Where the aggregate's commitments and proof are those of the whole list,
/// the concealed signature at `index` plus the opening gives them back.
pub fn local_aggregate_opening(
    aggregate_signature: &AggregateSignature,
    verify_key_list: &[VerifyKey],
    signature_list: &[ConcealedSignature],
    index: usize,
) -> (lop: LocalAggregateOpening)
    requires
        verify_key_list.len() == signature_list.len(),
        index < signature_list.len(),
    ensures
        lop@ == opening_of(
            aggregate_signature@.avk,
            key_views(verify_key_list@),
            concealed_views(signature_list@),
            index as int,
        ),
        ({
            let sigs = concealed_views(signature_list@);
            let n = sigs.len() as int;
            &&& aggregate_signature@.signature_commitment == commitment_prefix(signature_commitments(sigs), n)
                ==> commitment_sum(sigs[index as int].signature_commitment, lop@.signature_commitment)
                == aggregate_signature@.signature_commitment
            &&& aggregate_signature@.message_commitment == commitment_prefix(message_commitments(sigs), n)
                ==> commitment_sum(sigs[index as int].message_commitment, lop@.message_commitment)
                == aggregate_signature@.message_commitment
            &&& aggregate_signature@.proof == proof_prefix(proofs(sigs), n)
                ==> proof_sum(sigs[index as int].proof, lop@.proof) == aggregate_signature@.proof
        }),
        aggregate_signature@ == aggregate_of(key_views(verify_key_list@), concealed_views(signature_list@))
            ==> local_binding(
            aggregate_signature@,
            lop@,
            concealed_views(signature_list@)[index as int],
        ),
{
    let ghost keys = key_views(verify_key_list@);
    let ghost sigs = concealed_views(signature_list@);
    let ghost j = index as int;
    let n = signature_list.len();
    let avk = &aggregate_signature.avk;

    let mut local_signature_commitment = Commitment { c1: g1_identity(), c2: g1_identity() };
    let mut local_message_commitment = Commitment { c1: g1_identity(), c2: g1_identity() };
    let mut local_proof = Proof { z1: g2_identity(), z2: g2_identity() };

    let mut t1_lhs: Vec<G1> = Vec::new();
    let mut t1_rhs: Vec<G2> = Vec::new();
    let mut t2_lhs: Vec<G1> = Vec::new();
    let mut t2_rhs: Vec<G2> = Vec::new();

    assert(sigs.len() == n && keys.len() == n);
    assert(g1_views(t1_lhs@) =~= message_firsts(sigs).take(0));
    assert(g1_views(t2_lhs@) =~= message_seconds(sigs).take(0));
    assert(g2_views(t1_rhs@) =~= key_differences(avk@, keys).take(0));
    assert(g2_views(t2_rhs@) =~= key_differences(avk@, keys).take(0));
    let mut item_index: usize = 0;
    while item_index < n
        invariant
            n == signature_list.len(),
            n == verify_key_list.len(),
            item_index <= n,
            0 <= j < n,
            j == index,
            keys == key_views(verify_key_list@),
            sigs == concealed_views(signature_list@),
            sigs.len() == n,
            keys.len() == n,
            avk@ == aggregate_signature@.avk,
            commitment_skip_state(local_signature_commitment@, signature_commitments(sigs), j, item_index as int),
            commitment_skip_state(local_message_commitment@, message_commitments(sigs), j, item_index as int),
            proof_skip_state(local_proof@, proofs(sigs), j, item_index as int),
            views_skipping(g1_views(t1_lhs@), message_firsts(sigs), j, item_index as int),
            views_skipping(g1_views(t2_lhs@), message_seconds(sigs), j, item_index as int),
            views_skipping(g2_views(t1_rhs@), key_differences(avk@, keys), j, item_index as int),
            views_skipping(g2_views(t2_rhs@), key_differences(avk@, keys), j, item_index as int),
        decreases n - item_index,
    {
        let ghost i = item_index as int;
        proof {
            lemma_views_skipping_step(g1_views(t1_lhs@), message_firsts(sigs), j, i);
            lemma_views_skipping_step(g1_views(t2_lhs@), message_seconds(sigs), j, i);
            lemma_views_skipping_step(g2_views(t1_rhs@), key_differences(avk@, keys), j, i);
            lemma_views_skipping_step(g2_views(t2_rhs@), key_differences(avk@, keys), j, i);
        }
        if item_index == index {
            item_index = item_index + 1;
            continue;
        }
        let verify_key = &verify_key_list[item_index];
        let concealed_signature = &signature_list[item_index];

        local_signature_commitment = local_signature_commitment.add(
            concealed_signature.signature_commitment.clone_commitment(),
        );
        local_message_commitment = local_message_commitment.add(
            concealed_signature.message_commitment.clone_commitment(),
        );
        local_proof = local_proof.add(concealed_signature.proof.clone_proof());

        let diff = g2_sub(avk, &verify_key.value);
        let first = concealed_signature.message_commitment.c1.duplicate();
        let second = concealed_signature.message_commitment.c2.duplicate();
        let diff_copy = diff.duplicate();
        proof {
            lemma_g1_views_append(t1_lhs@, first);
            lemma_g1_views_append(t2_lhs@, second);
            lemma_g2_views_append(t1_rhs@, diff_copy);
            lemma_g2_views_append(t2_rhs@, diff);
        }
        t1_lhs.push(first);
        t1_rhs.push(diff_copy);
        t2_lhs.push(second);
        t2_rhs.push(diff);
        item_index = item_index + 1;
    }
    assert(message_firsts(sigs).take(n as int) =~= message_firsts(sigs));
    assert(message_seconds(sigs).take(n as int) =~= message_seconds(sigs));
    assert(key_differences(avk@, keys).take(n as int) =~= key_differences(avk@, keys));
    assert(message_firsts(sigs).len() == n && message_seconds(sigs).len() == n);
    assert(key_differences(avk@, keys).len() == n);
    assert(g1_views(t1_lhs@).len() == t1_lhs@.len() && g1_views(t2_lhs@).len() == t2_lhs@.len());
    assert(g2_views(t1_rhs@).len() == t1_rhs@.len() && g2_views(t2_rhs@).len() == t2_rhs@.len());

    let local_cross = Cross {
        t1: multi_pairing(&t1_lhs, &t1_rhs),
        t2: multi_pairing(&t2_lhs, &t2_rhs),
    };

    LocalAggregateOpening {
        signature_commitment: local_signature_commitment,
        message_commitment: local_message_commitment,
        proof: local_proof,
        cross: local_cross,
    }
}

} // verus!
