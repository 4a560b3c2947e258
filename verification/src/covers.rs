use vstd::prelude::*;

use crate::bilinear::{
    firsts_of, form, forms_total, g1_coef, g1_fits, g1_value, g2_coef, g2_fits, g2_value,
    identity_cover, lemma_form_append, lemma_form_eight, lemma_form_four, lemma_form_single, lemma_form_two, product_of, seconds_of,
    value_cover, balance_cover, G1Term, G2Term,
};
use crate::agg_forms::lemma_indicator_product;
use crate::fold_terms::ind;
use crate::conceal::concealed_of;
use crate::curve::{g2_negated, g2_sum, pairing_product};
use crate::params::{fr_modulus, g2_generator_bytes};
use crate::setup::SetupModel;
use crate::types::AuxModel;

verus! {

/// All four random values of `aux` are elements of `Fr`.
pub open spec fn aux_fits(aux: AuxModel) -> bool {
    &&& aux.r_sig < fr_modulus()
    &&& aux.s_sig < fr_modulus()
    &&& aux.r_msg < fr_modulus()
    &&& aux.s_msg < fr_modulus()
}

/// The base `i` of G1.
pub open spec fn b1(i: nat) -> G1Term {
    G1Term::Base(i)
}

/// The sum of two G1 terms.
pub open spec fn sum1(x: G1Term, y: G1Term) -> G1Term {
    G1Term::Sum(Box::new(x), Box::new(y))
}

/// A G1 term times `k`.
pub open spec fn times1(x: G1Term, k: nat) -> G1Term {
    G1Term::Times(Box::new(x), k)
}

/// The base `i` of G2.
pub open spec fn b2(i: nat) -> G2Term {
    G2Term::Base(i)
}

/// The negation of a G2 term.
pub open spec fn neg2(x: G2Term) -> G2Term {
    G2Term::Neg(Box::new(x))
}

/// `-(g2 r - vk s)` over the bases `[g2, vk]`.
pub open spec fn neg_proof_term(r: nat, s: nat) -> G2Term {
    neg2(
        G2Term::Diff(
            Box::new(G2Term::Times(Box::new(b2(0)), r)),
            Box::new(G2Term::Times(Box::new(b2(1)), s)),
        ),
    )
}

/// The bases of G1 of a concealed signature: `[v1, w1, v2, w2, sig, h]`.
pub open spec fn conversion_g1_bases(p: SetupModel, h: Seq<u8>, sig: Seq<u8>) -> Seq<Seq<u8>> {
    seq![p.v1, p.w1, p.v2, p.w2, sig, h]
}

/// The bases of G2 of a concealed signature: `[g2, vk]`.
pub open spec fn conversion_g2_bases(vk: Seq<u8>) -> Seq<Seq<u8>> {
    seq![g2_generator_bytes(), vk]
}

/// The pairs of the equation `k` (1 or 2) of a concealed signature made with
/// `aux`, over the bases above.
pub open spec fn conversion_pairs(aux: AuxModel, second: bool) -> Seq<(G1Term, G2Term)> {
    let (v, w) = if second { (2nat, 3nat) } else { (0nat, 1nat) };
    let sc = if second {
        sum1(sum1(b1(4), times1(b1(v), aux.r_sig)), times1(b1(w), aux.s_sig))
    } else {
        sum1(times1(b1(v), aux.r_sig), times1(b1(w), aux.s_sig))
    };
    let mc = if second {
        sum1(sum1(b1(5), times1(b1(v), aux.r_msg)), times1(b1(w), aux.s_msg))
    } else {
        sum1(times1(b1(v), aux.r_msg), times1(b1(w), aux.s_msg))
    };
    seq![
        (sc, b2(0)),
        (mc, neg2(b2(1))),
        (b1(v), neg_proof_term(aux.r_sig, aux.r_msg)),
        (b1(w), neg_proof_term(aux.s_sig, aux.s_msg)),
    ]
}

/// The pairs of the BLS equation `e(sig, g2) e(h, -vk)`, with `sig` and `h`
/// at the given places among the bases of G1 and `[g2, vk]` as those of G2.
pub open spec fn bls_equation_pairs_over(sig: nat, h: nat) -> Seq<(G1Term, G2Term)> {
    seq![(b1(sig), b2(0)), (b1(h), neg2(b2(1)))]
}

/// The pairs of the BLS equation over the bases of a concealed signature.
pub open spec fn bls_equation_pairs() -> Seq<(G1Term, G2Term)> {
    bls_equation_pairs_over(4, 5)
}

/// The pairs of a concealed signature write its two equations.
proof fn lemma_conversion_writes(
    p: SetupModel,
    vk: Seq<u8>,
    h: Seq<u8>,
    sig: Seq<u8>,
    aux: AuxModel,
    second: bool,
)
    requires
        aux_fits(aux),
    ensures
        ({
            let cs = concealed_of(p, vk, h, sig, aux);
            let bp = conversion_g1_bases(p, h, sig);
            let bq = conversion_g2_bases(vk);
            let ps = conversion_pairs(aux, second);
            &&& forall|i: int| 0 <= i < ps.len() ==> g1_fits(#[trigger] ps[i].0, 6) && g2_fits(ps[i].1, 2)
            &&& seconds_of(ps, bq) == seq![
                g2_generator_bytes(),
                g2_negated(vk),
                g2_negated(cs.proof.z1),
                g2_negated(cs.proof.z2),
            ]
            &&& !second ==> firsts_of(ps, bp) == seq![
                cs.signature_commitment.c1,
                cs.message_commitment.c1,
                p.v1,
                p.w1,
            ]
            &&& second ==> firsts_of(ps, bp) == seq![
                cs.signature_commitment.c2,
                cs.message_commitment.c2,
                p.v2,
                p.w2,
            ]
        }),
{
    reveal_with_fuel(g1_value, 4);
    reveal_with_fuel(g2_value, 4);
    reveal_with_fuel(g1_fits, 4);
    reveal_with_fuel(g2_fits, 4);
    let cs = concealed_of(p, vk, h, sig, aux);
    let bp = conversion_g1_bases(p, h, sig);
    let bq = conversion_g2_bases(vk);
    let ps = conversion_pairs(aux, second);
    assert(seconds_of(ps, bq) =~= seq![
        g2_generator_bytes(),
        g2_negated(vk),
        g2_negated(cs.proof.z1),
        g2_negated(cs.proof.z2),
    ]);
    if second {
        assert(firsts_of(ps, bp) =~= seq![
            cs.signature_commitment.c2,
            cs.message_commitment.c2,
            p.v2,
            p.w2,
        ]);
    } else {
        assert(firsts_of(ps, bp) =~= seq![
            cs.signature_commitment.c1,
            cs.message_commitment.c1,
            p.v1,
            p.w1,
        ]);
    }
}

/// A product whose second factor is `1`, `-1` or `0`.
pub proof fn lemma_product_sign(a: int, b: int, c: bool, negative: bool)
    requires
        b == (if negative { -ind(c) } else { ind(c) }),
    ensures
        a * b == (if !c { 0 } else if negative { -a } else { a }),
{
    if c && negative {
        assert(a * b == -a) by (nonlinear_arith)
            requires
                b == -1,
        ;
    } else if c {
        assert(a * b == a) by (nonlinear_arith)
            requires
                b == 1,
        ;
    } else {
        assert(a * b == 0) by (nonlinear_arith)
            requires
                b == 0,
        ;
    }
}

/// The coefficient of a multiple of a base of G1.
pub proof fn lemma_g1_times_base(i: nat, k: nat, s: int)
    ensures
        g1_coef(times1(b1(i), k), s) == (if s == i { k as int } else { 0 }),
{
    reveal_with_fuel(g1_coef, 2);
    if s == i {
        assert(k * 1 == k);
    } else {
        assert(k * 0 == 0);
    }
}

/// The coefficient of a multiple of a base of G2.
pub proof fn lemma_g2_times_base(i: nat, k: nat, t: int)
    ensures
        g2_coef(G2Term::Times(Box::new(b2(i)), k), t) == (if t == i { k as int } else { 0 }),
{
    reveal_with_fuel(g2_coef, 2);
    if t == i {
        assert(k * 1 == k);
    } else {
        assert(k * 0 == 0);
    }
}

/// The exponents of the equation `k` of a concealed signature: none for the
/// first; for the second, those of the BLS equation.
proof fn lemma_conversion_forms(aux: AuxModel, s: int, t: int)
    ensures
        form(conversion_pairs(aux, false), s, t) == 0,
        form(conversion_pairs(aux, true), s, t) == form(bls_equation_pairs(), s, t),
{
    reveal_with_fuel(g1_coef, 3);
    reveal_with_fuel(g2_coef, 3);
    let ps = conversion_pairs(aux, false);
    let qs = conversion_pairs(aux, true);
    let bs = bls_equation_pairs();
    lemma_form_four(ps[0], ps[1], ps[2], ps[3], s, t);
    lemma_form_four(qs[0], qs[1], qs[2], qs[3], s, t);
    lemma_form_two(bs[0], bs[1], s, t);
    assert(ps =~= seq![ps[0], ps[1], ps[2], ps[3]]);
    assert(qs =~= seq![qs[0], qs[1], qs[2], qs[3]]);
    assert(bs =~= seq![bs[0], bs[1]]);
    lemma_g1_times_base(0, aux.r_sig, s);
    lemma_g1_times_base(1, aux.s_sig, s);
    lemma_g1_times_base(0, aux.r_msg, s);
    lemma_g1_times_base(1, aux.s_msg, s);
    lemma_g1_times_base(2, aux.r_sig, s);
    lemma_g1_times_base(3, aux.s_sig, s);
    lemma_g1_times_base(2, aux.r_msg, s);
    lemma_g1_times_base(3, aux.s_msg, s);
    lemma_g2_times_base(0, aux.r_sig, t);
    lemma_g2_times_base(1, aux.r_msg, t);
    lemma_g2_times_base(0, aux.s_sig, t);
    lemma_g2_times_base(1, aux.s_msg, t);
    lemma_product_sign(g1_coef(ps[0].0, s), g2_coef(ps[0].1, t), t == 0, false);
    lemma_product_sign(g1_coef(ps[1].0, s), g2_coef(ps[1].1, t), t == 1, true);
    lemma_indicator_product(g1_coef(ps[2].0, s), g2_coef(ps[2].1, t), s == 0);
    lemma_indicator_product(g1_coef(ps[3].0, s), g2_coef(ps[3].1, t), s == 1);
    lemma_product_sign(g1_coef(qs[0].0, s), g2_coef(qs[0].1, t), t == 0, false);
    lemma_product_sign(g1_coef(qs[1].0, s), g2_coef(qs[1].1, t), t == 1, true);
    lemma_indicator_product(g1_coef(qs[2].0, s), g2_coef(qs[2].1, t), s == 2);
    lemma_indicator_product(g1_coef(qs[3].0, s), g2_coef(qs[3].1, t), s == 3);
    lemma_indicator_product(g1_coef(bs[0].0, s), g2_coef(bs[0].1, t), s == 4);
    lemma_indicator_product(g1_coef(bs[1].0, s), g2_coef(bs[1].1, t), s == 5);
}

/// What the pairing laws need of a concealed signature made honestly: its
/// first equation adds up to nothing, and its second has the exponents of the
/// BLS equation of the signature it conceals.
pub proof fn lemma_conversion_covers(
    p: SetupModel,
    vk: Seq<u8>,
    h: Seq<u8>,
    sig: Seq<u8>,
    aux: AuxModel,
)
    requires
        aux_fits(aux),
    ensures
        ({
            let cs = concealed_of(p, vk, h, sig, aux);
            let rhs = seq![
                g2_generator_bytes(),
                g2_negated(vk),
                g2_negated(cs.proof.z1),
                g2_negated(cs.proof.z2),
            ];
            let bp = conversion_g1_bases(p, h, sig);
            let bq = conversion_g2_bases(vk);
            &&& identity_cover(
                seq![cs.signature_commitment.c1, cs.message_commitment.c1, p.v1, p.w1],
                rhs,
                bp,
                bq,
                conversion_pairs(aux, false),
                Seq::empty(),
            )
            &&& value_cover(
                seq![cs.signature_commitment.c2, cs.message_commitment.c2, p.v2, p.w2],
                rhs,
                bp,
                bq,
                conversion_pairs(aux, true),
                bls_equation_pairs(),
            )
            &&& product_of(bls_equation_pairs(), bp, bq) == pairing_product(
                seq![sig, h],
                seq![g2_generator_bytes(), g2_negated(vk)],
            )
        }),
{
    reveal_with_fuel(g1_value, 2);
    reveal_with_fuel(g2_value, 2);
    reveal_with_fuel(g1_fits, 2);
    reveal_with_fuel(g2_fits, 2);
    lemma_conversion_writes(p, vk, h, sig, aux, false);
    lemma_conversion_writes(p, vk, h, sig, aux, true);
    assert forall|s: int, t: int| #[trigger] form(conversion_pairs(aux, false), s, t) == forms_total(
        Seq::empty(),
        s,
        t,
    ) by {
        lemma_conversion_forms(aux, s, t);
    }
    assert forall|s: int, t: int| #[trigger] form(conversion_pairs(aux, true), s, t) == form(
        bls_equation_pairs(),
        s,
        t,
    ) by {
        lemma_conversion_forms(aux, s, t);
    }
    let bp = conversion_g1_bases(p, h, sig);
    let bq = conversion_g2_bases(vk);
    assert(firsts_of(bls_equation_pairs(), bp) =~= seq![sig, h]);
    assert(seconds_of(bls_equation_pairs(), bq) =~= seq![g2_generator_bytes(), g2_negated(vk)]);
}

/// The BLS equation `e(sig, g2) e(h, -vk) = 1` balances `e(sig, g2)` against
/// `e(h, vk)`.
pub proof fn lemma_bls_balance(sig: Seq<u8>, h: Seq<u8>, vk: Seq<u8>)
    ensures
        balance_cover(
            seq![sig, h],
            seq![g2_generator_bytes(), g2_negated(vk)],
            seq![sig, h],
            conversion_g2_bases(vk),
            bls_equation_pairs_over(0, 1),
            seq![(b1(0), b2(0))],
            seq![(b1(1), b2(1))],
        ),
        product_of(seq![(b1(0), b2(0))], seq![sig, h], conversion_g2_bases(vk)) == pairing_product(
            seq![sig],
            seq![g2_generator_bytes()],
        ),
        product_of(seq![(b1(1), b2(1))], seq![sig, h], conversion_g2_bases(vk)) == pairing_product(
            seq![h],
            seq![vk],
        ),
{
    reveal_with_fuel(g1_value, 2);
    reveal_with_fuel(g2_value, 2);
    reveal_with_fuel(g1_fits, 2);
    reveal_with_fuel(g2_fits, 2);
    reveal_with_fuel(g1_coef, 2);
    reveal_with_fuel(g2_coef, 2);
    let p = seq![sig, h];
    let q = conversion_g2_bases(vk);
    let ps = bls_equation_pairs_over(0, 1);
    let qs1 = seq![(b1(0), b2(0))];
    let qs2 = seq![(b1(1), b2(1))];
    assert(firsts_of(ps, p) =~= seq![sig, h]);
    assert(seconds_of(ps, q) =~= seq![g2_generator_bytes(), g2_negated(vk)]);
    assert(firsts_of(qs1, p) =~= seq![sig]);
    assert(seconds_of(qs1, q) =~= seq![g2_generator_bytes()]);
    assert(firsts_of(qs2, p) =~= seq![h]);
    assert(seconds_of(qs2, q) =~= seq![vk]);
    assert forall|s: int, t: int| #[trigger] form(ps, s, t) == form(qs1, s, t) - form(qs2, s, t) by {
        lemma_form_two(ps[0], ps[1], s, t);
        assert(ps =~= seq![ps[0], ps[1]]);
        lemma_form_single(qs1[0], s, t);
        lemma_form_single(qs2[0], s, t);
        assert(qs1 =~= seq![qs1[0]]);
        assert(qs2 =~= seq![qs2[0]]);
        lemma_indicator_product(g1_coef(ps[0].0, s), g2_coef(ps[0].1, t), s == 0);
        lemma_indicator_product(g1_coef(ps[1].0, s), g2_coef(ps[1].1, t), s == 1);
        lemma_indicator_product(g1_coef(qs1[0].0, s), g2_coef(qs1[0].1, t), s == 0);
        lemma_indicator_product(g1_coef(qs2[0].0, s), g2_coef(qs2[0].1, t), s == 1);
    }
}

/// The equation `e(C_sig, g2) e(C_M, -vk) e(v, -z1) e(w, -z2) = 1` of a
/// concealed signature balances `e(C_sig, g2) e(C_M, -vk)` against
/// `e(v, z1) e(w, z2)`.
pub proof fn lemma_concealed_balance(
    sc: Seq<u8>,
    mc: Seq<u8>,
    v: Seq<u8>,
    w: Seq<u8>,
    vk: Seq<u8>,
    z1: Seq<u8>,
    z2: Seq<u8>,
)
    ensures
        ({
            let p = seq![sc, mc, v, w];
            let q = seq![g2_generator_bytes(), vk, z1, z2];
            let qs1 = seq![(b1(0), b2(0)), (b1(1), neg2(b2(1)))];
            let qs2 = seq![(b1(2), b2(2)), (b1(3), b2(3))];
            &&& balance_cover(
                p,
                seq![g2_generator_bytes(), g2_negated(vk), g2_negated(z1), g2_negated(z2)],
                p,
                q,
                seq![(b1(0), b2(0)), (b1(1), neg2(b2(1))), (b1(2), neg2(b2(2))), (b1(3), neg2(b2(3)))],
                qs1,
                qs2,
            )
            &&& product_of(qs1, p, q) == pairing_product(seq![sc, mc], seq![g2_generator_bytes(), g2_negated(vk)])
            &&& product_of(qs2, p, q) == pairing_product(seq![v, w], seq![z1, z2])
        }),
{
    reveal_with_fuel(g1_value, 2);
    reveal_with_fuel(g2_value, 2);
    reveal_with_fuel(g1_fits, 2);
    reveal_with_fuel(g2_fits, 2);
    reveal_with_fuel(g1_coef, 2);
    reveal_with_fuel(g2_coef, 2);
    let p = seq![sc, mc, v, w];
    let q = seq![g2_generator_bytes(), vk, z1, z2];
    let ps = seq![(b1(0), b2(0)), (b1(1), neg2(b2(1))), (b1(2), neg2(b2(2))), (b1(3), neg2(b2(3)))];
    let qs1 = seq![(b1(0), b2(0)), (b1(1), neg2(b2(1)))];
    let qs2 = seq![(b1(2), b2(2)), (b1(3), b2(3))];
    assert(firsts_of(ps, p) =~= p);
    assert(seconds_of(ps, q) =~= seq![g2_generator_bytes(), g2_negated(vk), g2_negated(z1), g2_negated(z2)]);
    assert(firsts_of(qs1, p) =~= seq![sc, mc]);
    assert(seconds_of(qs1, q) =~= seq![g2_generator_bytes(), g2_negated(vk)]);
    assert(firsts_of(qs2, p) =~= seq![v, w]);
    assert(seconds_of(qs2, q) =~= seq![z1, z2]);
    assert forall|s: int, t: int| #[trigger] form(ps, s, t) == form(qs1, s, t) - form(qs2, s, t) by {
        lemma_form_four(ps[0], ps[1], ps[2], ps[3], s, t);
        lemma_form_two(qs1[0], qs1[1], s, t);
        lemma_form_two(qs2[0], qs2[1], s, t);
        lemma_indicator_product(g1_coef(ps[0].0, s), g2_coef(ps[0].1, t), s == 0);
        lemma_indicator_product(g1_coef(ps[1].0, s), g2_coef(ps[1].1, t), s == 1);
        lemma_indicator_product(g1_coef(ps[2].0, s), g2_coef(ps[2].1, t), s == 2);
        lemma_indicator_product(g1_coef(ps[3].0, s), g2_coef(ps[3].1, t), s == 3);
        lemma_indicator_product(g1_coef(qs1[0].0, s), g2_coef(qs1[0].1, t), s == 0);
        lemma_indicator_product(g1_coef(qs1[1].0, s), g2_coef(qs1[1].1, t), s == 1);
        lemma_indicator_product(g1_coef(qs2[0].0, s), g2_coef(qs2[0].1, t), s == 2);
        lemma_indicator_product(g1_coef(qs2[1].0, s), g2_coef(qs2[1].1, t), s == 3);
    }
}

/// The sum of two G2 terms.
pub open spec fn sum2(x: G2Term, y: G2Term) -> G2Term {
    G2Term::Sum(Box::new(x), Box::new(y))
}

/// The local equation pairs the opening's proof and the signer's proof
/// separately with `v` and `w`; pairing their sums instead gives the same
/// product.
pub proof fn lemma_local_merge(
    lsc: Seq<u8>,
    lmc: Seq<u8>,
    csc: Seq<u8>,
    cmc: Seq<u8>,
    v: Seq<u8>,
    w: Seq<u8>,
    avk: Seq<u8>,
    vk: Seq<u8>,
    lz1: Seq<u8>,
    lz2: Seq<u8>,
    cz1: Seq<u8>,
    cz2: Seq<u8>,
)
    ensures
        ({
            let g2 = g2_generator_bytes();
            let p = seq![lsc, lmc, csc, cmc, v, w];
            let q = seq![g2, avk, vk, lz1, lz2, cz1, cz2];
            let qs = seq![
                (b1(0), b2(0)),
                (b1(1), neg2(b2(1))),
                (b1(2), b2(0)),
                (b1(3), neg2(b2(2))),
                (b1(4), neg2(sum2(b2(3), b2(5)))),
                (b1(5), neg2(sum2(b2(4), b2(6)))),
            ];
            &&& value_cover(
                seq![lsc, lmc, csc, cmc, v, w, v, w],
                seq![
                    g2,
                    g2_negated(avk),
                    g2,
                    g2_negated(vk),
                    g2_negated(lz1),
                    g2_negated(lz2),
                    g2_negated(cz1),
                    g2_negated(cz2),
                ],
                p,
                q,
                seq![
                    (b1(0), b2(0)),
                    (b1(1), neg2(b2(1))),
                    (b1(2), b2(0)),
                    (b1(3), neg2(b2(2))),
                    (b1(4), neg2(b2(3))),
                    (b1(5), neg2(b2(4))),
                    (b1(4), neg2(b2(5))),
                    (b1(5), neg2(b2(6))),
                ],
                qs,
            )
            &&& product_of(qs, p, q) == pairing_product(
                p,
                seq![
                    g2,
                    g2_negated(avk),
                    g2,
                    g2_negated(vk),
                    g2_negated(g2_sum(lz1, cz1)),
                    g2_negated(g2_sum(lz2, cz2)),
                ],
            )
        }),
{
    reveal_with_fuel(g1_value, 2);
    reveal_with_fuel(g2_value, 3);
    reveal_with_fuel(g1_fits, 2);
    reveal_with_fuel(g2_fits, 3);
    reveal_with_fuel(g1_coef, 2);
    reveal_with_fuel(g2_coef, 3);
    let g2 = g2_generator_bytes();
    let p = seq![lsc, lmc, csc, cmc, v, w];
    let q = seq![g2, avk, vk, lz1, lz2, cz1, cz2];
    let ps = seq![
        (b1(0), b2(0)),
        (b1(1), neg2(b2(1))),
        (b1(2), b2(0)),
        (b1(3), neg2(b2(2))),
        (b1(4), neg2(b2(3))),
        (b1(5), neg2(b2(4))),
        (b1(4), neg2(b2(5))),
        (b1(5), neg2(b2(6))),
    ];
    let qs = seq![
        (b1(0), b2(0)),
        (b1(1), neg2(b2(1))),
        (b1(2), b2(0)),
        (b1(3), neg2(b2(2))),
        (b1(4), neg2(sum2(b2(3), b2(5)))),
        (b1(5), neg2(sum2(b2(4), b2(6)))),
    ];
    assert(firsts_of(ps, p) =~= seq![lsc, lmc, csc, cmc, v, w, v, w]);
    assert(seconds_of(ps, q) =~= seq![
        g2,
        g2_negated(avk),
        g2,
        g2_negated(vk),
        g2_negated(lz1),
        g2_negated(lz2),
        g2_negated(cz1),
        g2_negated(cz2),
    ]);
    assert(firsts_of(qs, p) =~= p);
    assert(seconds_of(qs, q) =~= seq![
        g2,
        g2_negated(avk),
        g2,
        g2_negated(vk),
        g2_negated(g2_sum(lz1, cz1)),
        g2_negated(g2_sum(lz2, cz2)),
    ]);
    assert forall|s: int, t: int| #[trigger] form(ps, s, t) == form(qs, s, t) by {
        lemma_form_eight(ps, s, t);
        let a = ps.take(4);
        let b = ps.skip(4);
        lemma_form_four(a[0], a[1], a[2], a[3], s, t);
        lemma_form_four(b[0], b[1], b[2], b[3], s, t);
        assert(a =~= seq![a[0], a[1], a[2], a[3]]);
        assert(b =~= seq![b[0], b[1], b[2], b[3]]);
        lemma_form_append(qs.take(4), qs.skip(4), s, t);
        assert(qs.take(4) + qs.skip(4) =~= qs);
        let c = qs.take(4);
        let d = qs.skip(4);
        lemma_form_four(c[0], c[1], c[2], c[3], s, t);
        lemma_form_two(d[0], d[1], s, t);
        assert(c =~= seq![c[0], c[1], c[2], c[3]]);
        assert(d =~= seq![d[0], d[1]]);
        lemma_indicator_product(g1_coef(b[0].0, s), g2_coef(b[0].1, t), s == 4);
        lemma_indicator_product(g1_coef(b[1].0, s), g2_coef(b[1].1, t), s == 5);
        lemma_indicator_product(g1_coef(b[2].0, s), g2_coef(b[2].1, t), s == 4);
        lemma_indicator_product(g1_coef(b[3].0, s), g2_coef(b[3].1, t), s == 5);
        lemma_indicator_product(g1_coef(d[0].0, s), g2_coef(d[0].1, t), s == 4);
        lemma_indicator_product(g1_coef(d[1].0, s), g2_coef(d[1].1, t), s == 5);
        assert(a[0] == c[0] && a[1] == c[1] && a[2] == c[2] && a[3] == c[3]);
    }
}

} // verus!
