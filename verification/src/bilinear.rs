use vstd::prelude::*;

use crate::curve::{g1_scaled, g1_sum, g2_difference, g2_negated, g2_scaled, g2_sum, gt_is_identity, pairing_product};
use crate::params::{fr_modulus, g1_identity_bytes, g2_identity_bytes};

verus! {

/// A point of G1 written over a list of base points: a base, the identity, a
/// sum, or a multiple by an element of `Fr`.
pub enum G1Term {
    Base(nat),
    Zero,
    Sum(Box<G1Term>, Box<G1Term>),
    Times(Box<G1Term>, nat),
}

/// A point of G2 written over a list of base points, as `G1Term`, with
/// differences and negations besides.
pub enum G2Term {
    Base(nat),
    Zero,
    Sum(Box<G2Term>, Box<G2Term>),
    Times(Box<G2Term>, nat),
    Diff(Box<G2Term>, Box<G2Term>),
    Neg(Box<G2Term>),
}

/// The encoding that the G1 operations give for `t` over the bases `bases`.
pub open spec fn g1_value(t: G1Term, bases: Seq<Seq<u8>>) -> Seq<u8>
    decreases t,
{
    match t {
        G1Term::Base(i) => bases[i as int],
        G1Term::Zero => g1_identity_bytes(),
        G1Term::Sum(x, y) => g1_sum(g1_value(*x, bases), g1_value(*y, bases)),
        G1Term::Times(x, k) => g1_scaled(g1_value(*x, bases), k),
    }
}

/// The encoding that the G2 operations give for `t` over the bases `bases`.
pub open spec fn g2_value(t: G2Term, bases: Seq<Seq<u8>>) -> Seq<u8>
    decreases t,
{
    match t {
        G2Term::Base(i) => bases[i as int],
        G2Term::Zero => g2_identity_bytes(),
        G2Term::Sum(x, y) => g2_sum(g2_value(*x, bases), g2_value(*y, bases)),
        G2Term::Times(x, k) => g2_scaled(g2_value(*x, bases), k),
        G2Term::Diff(x, y) => g2_difference(g2_value(*x, bases), g2_value(*y, bases)),
        G2Term::Neg(x) => g2_negated(g2_value(*x, bases)),
    }
}

/// `t` names only bases below `n`, and multiplies only by elements of `Fr`.
pub open spec fn g1_fits(t: G1Term, n: nat) -> bool
    decreases t,
{
    match t {
        G1Term::Base(i) => i < n,
        G1Term::Zero => true,
        G1Term::Sum(x, y) => g1_fits(*x, n) && g1_fits(*y, n),
        G1Term::Times(x, k) => k < fr_modulus() && g1_fits(*x, n),
    }
}

/// The G2 counterpart of `g1_fits`.
pub open spec fn g2_fits(t: G2Term, n: nat) -> bool
    decreases t,
{
    match t {
        G2Term::Base(i) => i < n,
        G2Term::Zero => true,
        G2Term::Sum(x, y) => g2_fits(*x, n) && g2_fits(*y, n),
        G2Term::Times(x, k) => k < fr_modulus() && g2_fits(*x, n),
        G2Term::Diff(x, y) => g2_fits(*x, n) && g2_fits(*y, n),
        G2Term::Neg(x) => g2_fits(*x, n),
    }
}

/// How many times the base `s` is counted in `t`.
pub open spec fn g1_coef(t: G1Term, s: int) -> int
    decreases t,
{
    match t {
        G1Term::Base(i) => if i == s { 1 } else { 0 },
        G1Term::Zero => 0,
        G1Term::Sum(x, y) => g1_coef(*x, s) + g1_coef(*y, s),
        G1Term::Times(x, k) => k * g1_coef(*x, s),
    }
}

/// How many times the base `t` is counted in `u`.
pub open spec fn g2_coef(u: G2Term, t: int) -> int
    decreases u,
{
    match u {
        G2Term::Base(i) => if i == t { 1 } else { 0 },
        G2Term::Zero => 0,
        G2Term::Sum(x, y) => g2_coef(*x, t) + g2_coef(*y, t),
        G2Term::Times(x, k) => k * g2_coef(*x, t),
        G2Term::Diff(x, y) => g2_coef(*x, t) - g2_coef(*y, t),
        G2Term::Neg(x) => -g2_coef(*x, t),
    }
}

/// The exponent of `e(P_s, Q_t)` in the product of the pairings of the pairs
/// `ps`, by bilinearity.
pub open spec fn form(ps: Seq<(G1Term, G2Term)>, s: int, t: int) -> int
    decreases ps.len(),
{
    if ps.len() == 0 {
        0
    } else {
        form(ps.drop_last(), s, t) + g1_coef(ps.last().0, s) * g2_coef(ps.last().1, t)
    }
}

/// The sum of the exponents of `e(P_s, Q_t)` over the lists of pairs `ls`.
pub open spec fn forms_total(ls: Seq<Seq<(G1Term, G2Term)>>, s: int, t: int) -> int
    decreases ls.len(),
{
    if ls.len() == 0 {
        0
    } else {
        forms_total(ls.drop_last(), s, t) + form(ls.last(), s, t)
    }
}

/// Every pair of `ps` fits `n1` bases of G1 and `n2` bases of G2.
pub open spec fn pairs_fit(ps: Seq<(G1Term, G2Term)>, n1: nat, n2: nat) -> bool {
    forall|i: int| 0 <= i < ps.len() ==> g1_fits(#[trigger] ps[i].0, n1) && g2_fits(ps[i].1, n2)
}

/// The G1 points of the pairs `ps`.
pub open spec fn firsts_of(ps: Seq<(G1Term, G2Term)>, p: Seq<Seq<u8>>) -> Seq<Seq<u8>> {
    ps.map_values(|x: (G1Term, G2Term)| g1_value(x.0, p))
}

/// The G2 points of the pairs `ps`.
pub open spec fn seconds_of(ps: Seq<(G1Term, G2Term)>, q: Seq<Seq<u8>>) -> Seq<Seq<u8>> {
    ps.map_values(|x: (G1Term, G2Term)| g2_value(x.1, q))
}

/// The product of the pairings of the pairs `ps` over the bases `p` and `q`.
pub open spec fn product_of(ps: Seq<(G1Term, G2Term)>, p: Seq<Seq<u8>>, q: Seq<Seq<u8>>) -> Seq<u8> {
    pairing_product(firsts_of(ps, p), seconds_of(ps, q))
}

/// `ps` writes the lists `a` and `b` over the bases `p` and `q`.
pub open spec fn writes(
    a: Seq<Seq<u8>>,
    b: Seq<Seq<u8>>,
    p: Seq<Seq<u8>>,
    q: Seq<Seq<u8>>,
    ps: Seq<(G1Term, G2Term)>,
) -> bool {
    &&& pairs_fit(ps, p.len(), q.len())
    &&& a == firsts_of(ps, p)
    &&& b == seconds_of(ps, q)
}

/// `ps` writes `a` and `b`, and its exponents are the sums of those of the
/// lists `ls`, each of whose products is the identity of GT.
pub open spec fn identity_cover(
    a: Seq<Seq<u8>>,
    b: Seq<Seq<u8>>,
    p: Seq<Seq<u8>>,
    q: Seq<Seq<u8>>,
    ps: Seq<(G1Term, G2Term)>,
    ls: Seq<Seq<(G1Term, G2Term)>>,
) -> bool {
    &&& writes(a, b, p, q, ps)
    &&& forall|j: int|
        0 <= j < ls.len() ==> pairs_fit(#[trigger] ls[j], p.len(), q.len()) && gt_is_identity(
            product_of(ls[j], p, q),
        )
    &&& forall|s: int, t: int| #[trigger] form(ps, s, t) == forms_total(ls, s, t)
}

/// `ps` writes `a` and `b`, and `qs` has the same exponents.
pub open spec fn value_cover(
    a: Seq<Seq<u8>>,
    b: Seq<Seq<u8>>,
    p: Seq<Seq<u8>>,
    q: Seq<Seq<u8>>,
    ps: Seq<(G1Term, G2Term)>,
    qs: Seq<(G1Term, G2Term)>,
) -> bool {
    &&& writes(a, b, p, q, ps)
    &&& pairs_fit(qs, p.len(), q.len())
    &&& forall|s: int, t: int| #[trigger] form(ps, s, t) == form(qs, s, t)
}

/// `ps` writes `a` and `b`, and its exponents are those of `qs1` less those
/// of `qs2`.
pub open spec fn balance_cover(
    a: Seq<Seq<u8>>,
    b: Seq<Seq<u8>>,
    p: Seq<Seq<u8>>,
    q: Seq<Seq<u8>>,
    ps: Seq<(G1Term, G2Term)>,
    qs1: Seq<(G1Term, G2Term)>,
    qs2: Seq<(G1Term, G2Term)>,
) -> bool {
    &&& writes(a, b, p, q, ps)
    &&& pairs_fit(qs1, p.len(), q.len())
    &&& pairs_fit(qs2, p.len(), q.len())
    &&& forall|s: int, t: int| #[trigger] form(ps, s, t) == form(qs1, s, t) - form(qs2, s, t)
}

/// What bilinearity gives of `v`, the encoding of the product of the pairings
/// of `a[i]` with `b[i]`: wherever the pairs are written over bases, `v` is the
/// product of the pairings of the bases raised to the exponents of `form`. So
/// `v` is the identity where those exponents add up from lists whose products
/// are the identity; `v` is the product of any other list with the same
/// exponents; and where the exponents are those of one list less those of
/// another, `v` is the identity exactly when the two lists' products are
/// equal.
pub open spec fn pairing_laws(v: Seq<u8>, a: Seq<Seq<u8>>, b: Seq<Seq<u8>>) -> bool {
    &&& forall|p: Seq<Seq<u8>>, q: Seq<Seq<u8>>, ps: Seq<(G1Term, G2Term)>, ls: Seq<Seq<(G1Term, G2Term)>>|
        #[trigger] identity_cover(a, b, p, q, ps, ls) ==> gt_is_identity(v)
    &&& forall|p: Seq<Seq<u8>>, q: Seq<Seq<u8>>, ps: Seq<(G1Term, G2Term)>, qs: Seq<(G1Term, G2Term)>|
        #[trigger] value_cover(a, b, p, q, ps, qs) ==> product_of(qs, p, q) == v
    &&& forall|
        p: Seq<Seq<u8>>,
        q: Seq<Seq<u8>>,
        ps: Seq<(G1Term, G2Term)>,
        qs1: Seq<(G1Term, G2Term)>,
        qs2: Seq<(G1Term, G2Term)>,
    |
        #[trigger] balance_cover(a, b, p, q, ps, qs1, qs2) ==> (gt_is_identity(v) <==> product_of(qs1, p, q)
            == product_of(qs2, p, q))
}

/// The exponent that the pair `x` alone gives `e(P_s, Q_t)`.
pub open spec fn pair_term(x: (G1Term, G2Term), s: int, t: int) -> int {
    g1_coef(x.0, s) * g2_coef(x.1, t)
}

/// The exponents of two lists joined are the sums of their exponents.
pub proof fn lemma_form_append(ps: Seq<(G1Term, G2Term)>, qs: Seq<(G1Term, G2Term)>, s: int, t: int)
    ensures
        form(ps + qs, s, t) == form(ps, s, t) + form(qs, s, t),
    decreases qs.len(),
{
    if qs.len() == 0 {
        assert(ps + qs =~= ps);
    } else {
        lemma_form_append(ps, qs.drop_last(), s, t);
        assert((ps + qs).drop_last() =~= ps + qs.drop_last());
    }
}

/// The exponents of a list of one pair.
pub proof fn lemma_form_single(x: (G1Term, G2Term), s: int, t: int)
    ensures
        form(seq![x], s, t) == pair_term(x, s, t),
{
    reveal_with_fuel(form, 2);
    assert(seq![x].drop_last() =~= Seq::<(G1Term, G2Term)>::empty());
    assert(seq![x].last() == x);
}

/// The exponents of a list of two pairs.
pub proof fn lemma_form_two(a: (G1Term, G2Term), b: (G1Term, G2Term), s: int, t: int)
    ensures
        form(seq![a, b], s, t) == pair_term(a, s, t) + pair_term(b, s, t),
{
    lemma_form_single(a, s, t);
    lemma_form_single(b, s, t);
    lemma_form_append(seq![a], seq![b], s, t);
    assert(seq![a] + seq![b] =~= seq![a, b]);
}

/// The exponents of a list of four pairs.
pub proof fn lemma_form_four(
    a: (G1Term, G2Term),
    b: (G1Term, G2Term),
    c: (G1Term, G2Term),
    d: (G1Term, G2Term),
    s: int,
    t: int,
)
    ensures
        form(seq![a, b, c, d], s, t) == pair_term(a, s, t) + pair_term(b, s, t) + pair_term(c, s, t)
            + pair_term(d, s, t),
{
    lemma_form_two(a, b, s, t);
    lemma_form_two(c, d, s, t);
    lemma_form_append(seq![a, b], seq![c, d], s, t);
    assert(seq![a, b] + seq![c, d] =~= seq![a, b, c, d]);
}

/// The exponents of a list of eight pairs, as two lists of four.
pub proof fn lemma_form_eight(ps: Seq<(G1Term, G2Term)>, s: int, t: int)
    requires
        ps.len() == 8,
    ensures
        form(ps, s, t) == form(ps.take(4), s, t) + form(ps.skip(4), s, t),
{
    lemma_form_append(ps.take(4), ps.skip(4), s, t);
    assert(ps.take(4) + ps.skip(4) =~= ps);
}

/// Leaving a pair out takes its exponents away.
pub proof fn lemma_form_remove(ps: Seq<(G1Term, G2Term)>, j: int, s: int, t: int)
    requires
        0 <= j < ps.len(),
    ensures
        form(ps.remove(j), s, t) == form(ps, s, t) - pair_term(ps[j], s, t),
{
    let a = ps.take(j);
    let b = ps.skip(j + 1);
    lemma_form_append(a, b, s, t);
    lemma_form_append(a + seq![ps[j]], b, s, t);
    lemma_form_append(a, seq![ps[j]], s, t);
    lemma_form_single(ps[j], s, t);
    assert(a + b =~= ps.remove(j));
    assert(a + seq![ps[j]] + b =~= ps);
}

} // verus!
