use vstd::prelude::*;

use crate::agg_forms::{key_ind, lemma_indicator_product};
use crate::bilinear::{
    form, g1_coef, g2_coef, lemma_form_append, lemma_form_eight, lemma_form_four, lemma_form_remove,
    lemma_form_single, G1Term, G2Term,
};
use crate::covers::{b1, b2, lemma_product_sign, neg2};
use crate::expanded::{
    g1_tfold, g1_tfold_except, g1_tsum, g2_tfold, g2_tfold_except, g2_tsum, lemma_g1_tfold_coef,
    lemma_g2_tfold_coef, lemma_member_term_coefs, msg_term, msg_terms, proof_term, proof_terms,
    sig_term, sig_terms,
};
use crate::fold_terms::{ind, key_fold, lemma_key_fold_coef};
use crate::types::AuxModel;

verus! {

/// The cross pairs `(C_M,k^i, avk - vk_i)` of the concealed signatures made
/// with `auxs`, over the bases of `expanded.rs`.
pub open spec fn expanded_cross(auxs: Seq<AuxModel>, second: bool) -> Seq<(G1Term, G2Term)> {
    let n = auxs.len();
    Seq::new(
        n,
        |i: int|
            (
                msg_term(n, i, auxs[i], second),
                G2Term::Diff(Box::new(key_fold(n as int)), Box::new(b2((1 + i) as nat))),
            ),
    )
}

/// The pairs of the aggregate's equation `k`, before its cross term.
pub open spec fn expanded_aggregate(auxs: Seq<AuxModel>, second: bool) -> Seq<(G1Term, G2Term)> {
    let n = auxs.len() as int;
    seq![
        (g1_tfold(sig_terms(auxs, second), n), b2(0)),
        (g1_tfold(msg_terms(auxs, second), n), neg2(key_fold(n))),
        (b1(0), neg2(g2_tfold(proof_terms(auxs, false), n))),
        (b1(1), neg2(g2_tfold(proof_terms(auxs, true), n))),
    ]
}

/// The pairs of the local equation `k` of the signer at `j`, before the
/// opening's cross term.
pub open spec fn expanded_local(auxs: Seq<AuxModel>, second: bool, j: int) -> Seq<(G1Term, G2Term)> {
    let n = auxs.len() as int;
    seq![
        (g1_tfold_except(sig_terms(auxs, second), j, n), b2(0)),
        (g1_tfold_except(msg_terms(auxs, second), j, n), neg2(key_fold(n))),
        (sig_terms(auxs, second)[j], b2(0)),
        (msg_terms(auxs, second)[j], neg2(b2((1 + j) as nat))),
        (b1(0), neg2(g2_tfold_except(proof_terms(auxs, false), j, n))),
        (b1(1), neg2(g2_tfold_except(proof_terms(auxs, true), j, n))),
        (b1(0), neg2(proof_terms(auxs, false)[j])),
        (b1(1), neg2(proof_terms(auxs, true)[j])),
    ]
}

/// The pairs `(sig_i, g2)` and then `(H(m_i), -vk_i)` of the BLS equations of
/// all `n` signers (none for the first equation, which holds no signature).
pub open spec fn expanded_bls(n: nat, second: bool) -> Seq<(G1Term, G2Term)> {
    if second {
        Seq::new(n, |i: int| (b1((2 + i) as nat), b2(0))) + Seq::new(
            n,
            |i: int| (b1((2 + n + i) as nat), neg2(b2((1 + i) as nat))),
        )
    } else {
        Seq::empty()
    }
}

/// The exponents of the signatures' pairs `(sig_i, g2)` for `i < m`.
pub open spec fn sig_part(second: bool, m: int, s: int, t: int) -> int
    decreases m,
{
    if m <= 0 {
        0
    } else {
        sig_part(second, m - 1, s, t) + ind(second && s == 2 + m - 1 && t == 0)
    }
}

/// The exponents of the message points' pairs `(H(m_i), vk_i)` for `i < m`.
pub open spec fn hash_part(n: nat, second: bool, m: int, s: int, t: int) -> int
    decreases m,
{
    if m <= 0 {
        0
    } else {
        hash_part(n, second, m - 1, s, t) + ind(second && s == 2 + n + m - 1 && t == m)
    }
}

/// The exponents of the first `m` cross pairs.
pub open spec fn cross_part(auxs: Seq<AuxModel>, second: bool, m: int, s: int, t: int) -> int
    decreases m,
{
    if m <= 0 {
        0
    } else {
        cross_part(auxs, second, m - 1, s, t) + (if 1 <= t < 1 + auxs.len() && t != m {
            g1_coef(msg_term(auxs.len(), m - 1, auxs[m - 1], second), s)
        } else {
            0
        })
    }
}

proof fn lemma_cross_part(auxs: Seq<AuxModel>, second: bool, m: int, s: int, t: int)
    requires
        0 <= m <= auxs.len(),
    ensures
        form(expanded_cross(auxs, second).take(m), s, t) == cross_part(auxs, second, m, s, t),
    decreases m,
{
    if m > 0 {
        reveal_with_fuel(g2_coef, 2);
        let n = auxs.len();
        lemma_cross_part(auxs, second, m - 1, s, t);
        let ps = expanded_cross(auxs, second).take(m);
        assert(ps.drop_last() =~= expanded_cross(auxs, second).take(m - 1));
        let x = ps.last();
        assert(x == expanded_cross(auxs, second)[m - 1]);
        lemma_key_fold_coef(n as int, t);
        assert(g2_coef(x.1, t) == ind(1 <= t < 1 + n && t != m));
        lemma_product_sign(g1_coef(x.0, s), g2_coef(x.1, t), 1 <= t < 1 + n && t != m, false);
    } else {
        assert(expanded_cross(auxs, second).take(m).len() == 0);
    }
}

proof fn lemma_bls_parts(n: nat, second: bool, m: int, s: int, t: int)
    requires
        0 <= m <= n,
        second,
    ensures
        form(Seq::new(n, |i: int| (b1((2 + i) as nat), b2(0))).take(m), s, t) == sig_part(second, m, s, t),
        form(Seq::new(n, |i: int| (b1((2 + n + i) as nat), neg2(b2((1 + i) as nat)))).take(m), s, t)
            == -hash_part(n, second, m, s, t),
    decreases m,
{
    if m > 0 {
        reveal_with_fuel(g1_coef, 2);
        reveal_with_fuel(g2_coef, 2);
        lemma_bls_parts(n, second, m - 1, s, t);
        let a = Seq::new(n, |i: int| (b1((2 + i) as nat), b2(0)));
        let b = Seq::new(n, |i: int| (b1((2 + n + i) as nat), neg2(b2((1 + i) as nat))));
        assert(a.take(m).drop_last() =~= a.take(m - 1));
        assert(b.take(m).drop_last() =~= b.take(m - 1));
        assert(a.take(m).last() == a[m - 1]);
        assert(b.take(m).last() == b[m - 1]);
        lemma_indicator_product(g1_coef(a[m - 1].0, s), g2_coef(a[m - 1].1, t), s == 2 + m - 1);
        lemma_indicator_product(g1_coef(b[m - 1].0, s), g2_coef(b[m - 1].1, t), s == 2 + n + m - 1);
    } else {
        let a = Seq::new(n, |i: int| (b1((2 + i) as nat), b2(0)));
        let b = Seq::new(n, |i: int| (b1((2 + n + i) as nat), neg2(b2((1 + i) as nat))));
        assert(a.take(m).len() == 0);
        assert(b.take(m).len() == 0);
    }
}

/// The exponents of the BLS equations of all signers.
proof fn lemma_bls_form(n: nat, second: bool, s: int, t: int)
    ensures
        form(expanded_bls(n, second), s, t) == sig_part(second, n as int, s, t) - hash_part(
            n,
            second,
            n as int,
            s,
            t,
        ),
    decreases n,
{
    if second {
        let a = Seq::new(n, |i: int| (b1((2 + i) as nat), b2(0)));
        let b = Seq::new(n, |i: int| (b1((2 + n + i) as nat), neg2(b2((1 + i) as nat))));
        lemma_bls_parts(n, second, n as int, s, t);
        assert(a.take(n as int) =~= a);
        assert(b.take(n as int) =~= b);
        lemma_form_append(a, b, s, t);
    } else {
        lemma_sig_hash_zero(n, n as int, s, t);
    }
}

proof fn lemma_sig_hash_zero(n: nat, m: int, s: int, t: int)
    ensures
        sig_part(false, m, s, t) == 0,
        hash_part(n, false, m, s, t) == 0,
    decreases m,
{
    if m > 0 {
        lemma_sig_hash_zero(n, m - 1, s, t);
    }
}

/// Adding up the signers one by one: what the aggregate's pairs count of each
/// base pairing is what the signers' BLS equations count of it.
proof fn lemma_signers_add_up(auxs: Seq<AuxModel>, second: bool, m: int, s: int, t: int)
    requires
        0 <= m <= auxs.len(),
    ensures
        ({
            let n = auxs.len();
            (if t == 0 { g1_tsum(sig_terms(auxs, second), m, s) } else { 0 }) - (if 1 <= t < 1 + n {
                g1_tsum(msg_terms(auxs, second), m, s)
            } else {
                0
            }) - (if s == 0 { g2_tsum(proof_terms(auxs, false), m, t) } else { 0 }) - (if s == 1 {
                g2_tsum(proof_terms(auxs, true), m, t)
            } else {
                0
            }) + cross_part(auxs, second, m, s, t) == sig_part(second, m, s, t) - hash_part(n, second, m, s, t)
        }),
    decreases m,
{
    if m > 0 {
        let n = auxs.len();
        lemma_signers_add_up(auxs, second, m - 1, s, t);
        lemma_member_term_coefs(n, m - 1, auxs[m - 1], second, s, t);
        assert(sig_terms(auxs, second)[m - 1] == sig_term(n, m - 1, auxs[m - 1], second));
        assert(msg_terms(auxs, second)[m - 1] == msg_term(n, m - 1, auxs[m - 1], second));
        assert(proof_terms(auxs, false)[m - 1] == proof_term(m - 1, auxs[m - 1], false));
        assert(proof_terms(auxs, true)[m - 1] == proof_term(m - 1, auxs[m - 1], true));
    }
}

/// The aggregate's equation `k` with its cross term counts each base pairing
/// as the signers' BLS equations do together.
pub proof fn lemma_expanded_aggregate_form(auxs: Seq<AuxModel>, second: bool, s: int, t: int)
    requires
        auxs.len() >= 1,
    ensures
        form(expanded_aggregate(auxs, second) + expanded_cross(auxs, second), s, t) == form(
            expanded_bls(auxs.len(), second),
            s,
            t,
        ),
{
    reveal_with_fuel(g1_coef, 2);
    reveal_with_fuel(g2_coef, 2);
    let n = auxs.len();
    let ps = expanded_aggregate(auxs, second);
    lemma_form_append(ps, expanded_cross(auxs, second), s, t);
    lemma_form_four(ps[0], ps[1], ps[2], ps[3], s, t);
    assert(ps =~= seq![ps[0], ps[1], ps[2], ps[3]]);
    lemma_g1_tfold_coef(sig_terms(auxs, second), 0, n as int, s);
    lemma_g1_tfold_coef(msg_terms(auxs, second), 0, n as int, s);
    lemma_g2_tfold_coef(proof_terms(auxs, false), 0, n as int, t);
    lemma_g2_tfold_coef(proof_terms(auxs, true), 0, n as int, t);
    lemma_key_fold_coef(n as int, t);
    lemma_product_sign(g1_coef(ps[0].0, s), g2_coef(ps[0].1, t), t == 0, false);
    lemma_product_sign(g1_coef(ps[1].0, s), g2_coef(ps[1].1, t), 1 <= t < 1 + n, true);
    lemma_indicator_product(g1_coef(ps[2].0, s), g2_coef(ps[2].1, t), s == 0);
    lemma_indicator_product(g1_coef(ps[3].0, s), g2_coef(ps[3].1, t), s == 1);
    lemma_cross_part(auxs, second, n as int, s, t);
    assert(expanded_cross(auxs, second).take(n as int) =~= expanded_cross(auxs, second));
    lemma_signers_add_up(auxs, second, n as int, s, t);
    lemma_bls_form(n, second, s, t);
}

/// The local equation `k` of the signer at `j`, with the opening's cross
/// term, counts each base pairing as the aggregate's equation does.
pub proof fn lemma_expanded_local_form(auxs: Seq<AuxModel>, second: bool, j: int, s: int, t: int)
    requires
        0 <= j < auxs.len(),
    ensures
        form(expanded_local(auxs, second, j) + expanded_cross(auxs, second).remove(j), s, t) == form(
            expanded_bls(auxs.len(), second),
            s,
            t,
        ),
{
    reveal_with_fuel(g1_coef, 2);
    reveal_with_fuel(g2_coef, 2);
    let n = auxs.len();
    lemma_expanded_aggregate_form(auxs, second, s, t);
    let ag = expanded_aggregate(auxs, second);
    lemma_form_append(ag, expanded_cross(auxs, second), s, t);
    lemma_form_four(ag[0], ag[1], ag[2], ag[3], s, t);
    assert(ag =~= seq![ag[0], ag[1], ag[2], ag[3]]);
    let ps = expanded_local(auxs, second, j);
    lemma_form_append(ps, expanded_cross(auxs, second).remove(j), s, t);
    lemma_form_remove(expanded_cross(auxs, second), j, s, t);
    lemma_form_eight(ps, s, t);
    let a = ps.take(4);
    let b = ps.skip(4);
    lemma_form_four(a[0], a[1], a[2], a[3], s, t);
    lemma_form_four(b[0], b[1], b[2], b[3], s, t);
    assert(a =~= seq![a[0], a[1], a[2], a[3]]);
    assert(b =~= seq![b[0], b[1], b[2], b[3]]);
    lemma_g1_tfold_coef(sig_terms(auxs, second), j, n as int, s);
    lemma_g1_tfold_coef(msg_terms(auxs, second), j, n as int, s);
    lemma_g2_tfold_coef(proof_terms(auxs, false), j, n as int, t);
    lemma_g2_tfold_coef(proof_terms(auxs, true), j, n as int, t);
    lemma_key_fold_coef(n as int, t);
    lemma_product_sign(g1_coef(ag[0].0, s), g2_coef(ag[0].1, t), t == 0, false);
    lemma_product_sign(g1_coef(ag[1].0, s), g2_coef(ag[1].1, t), 1 <= t < 1 + n, true);
    lemma_indicator_product(g1_coef(ag[2].0, s), g2_coef(ag[2].1, t), s == 0);
    lemma_indicator_product(g1_coef(ag[3].0, s), g2_coef(ag[3].1, t), s == 1);
    lemma_product_sign(g1_coef(a[0].0, s), g2_coef(a[0].1, t), t == 0, false);
    lemma_product_sign(g1_coef(a[1].0, s), g2_coef(a[1].1, t), 1 <= t < 1 + n, true);
    lemma_product_sign(g1_coef(a[2].0, s), g2_coef(a[2].1, t), t == 0, false);
    lemma_product_sign(g1_coef(a[3].0, s), g2_coef(a[3].1, t), t == 1 + j, true);
    lemma_indicator_product(g1_coef(b[0].0, s), g2_coef(b[0].1, t), s == 0);
    lemma_indicator_product(g1_coef(b[1].0, s), g2_coef(b[1].1, t), s == 1);
    lemma_indicator_product(g1_coef(b[2].0, s), g2_coef(b[2].1, t), s == 0);
    lemma_indicator_product(g1_coef(b[3].0, s), g2_coef(b[3].1, t), s == 1);
    let x = expanded_cross(auxs, second)[j];
    assert(g2_coef(x.1, t) == ind(1 <= t < 1 + n && t != 1 + j));
    lemma_product_sign(g1_coef(x.0, s), g2_coef(x.1, t), 1 <= t < 1 + n && t != 1 + j, false);
    assert(x.0 == msg_terms(auxs, second)[j]);
}

} // verus!
