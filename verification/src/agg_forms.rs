use vstd::prelude::*;

use crate::bilinear::{
    form, forms_total, g1_coef, g2_coef, lemma_form_append, lemma_form_eight, lemma_form_four,
    lemma_form_remove, G1Term, G2Term,
};
use crate::covers::{b1, b2, neg2};
use crate::fold_terms::{
    g1_fold, g1_fold_except, g2_fold, g2_fold_except, ind, key_fold, lemma_g1_fold_coef,
    lemma_g1_fold_except_coef, lemma_g2_fold_coef, lemma_g2_fold_except_coef, lemma_key_fold_coef,
};

verus! {

/// The cross pairs `(C_M^i, avk - vk_i)` of `n` signers over the bases of an
/// aggregate: G1 holds the signature commitments at `0 .. n`, the message
/// commitments at `n .. 2n`, then `v` and `w`; G2 holds `g2`, the keys at
/// `1 .. 1 + n`, the first proof points at `1 + n .. 1 + 2n` and the second
/// at `1 + 2n .. 1 + 3n`.
pub open spec fn cross_pairs(n: nat) -> Seq<(G1Term, G2Term)> {
    Seq::new(
        n,
        |i: int|
            (
                b1((n + i) as nat),
                G2Term::Diff(Box::new(key_fold(n as int)), Box::new(b2((1 + i) as nat))),
            ),
    )
}

/// The pairs of the equation of the signer at `j`.
pub open spec fn member_pairs(n: nat, j: int) -> Seq<(G1Term, G2Term)> {
    seq![
        (b1(j as nat), b2(0)),
        (b1((n + j) as nat), neg2(b2((1 + j) as nat))),
        (b1(2 * n), neg2(b2((1 + n + j) as nat))),
        (b1(2 * n + 1), neg2(b2((1 + 2 * n + j) as nat))),
    ]
}

/// The equations of all `n` signers.
pub open spec fn members(n: nat) -> Seq<Seq<(G1Term, G2Term)>> {
    Seq::new(n, |j: int| member_pairs(n, j))
}

/// The pairs of the equation of the aggregate, before its cross term.
pub open spec fn aggregate_pairs(n: nat) -> Seq<(G1Term, G2Term)> {
    seq![
        (g1_fold(0, n as int), b2(0)),
        (g1_fold(n, n as int), neg2(key_fold(n as int))),
        (b1(2 * n), neg2(g2_fold(1 + n, n as int))),
        (b1(2 * n + 1), neg2(g2_fold(1 + 2 * n, n as int))),
    ]
}

/// `1` where `t` is a key.
pub open spec fn key_ind(n: nat, t: int) -> int {
    ind(1 <= t < 1 + n)
}

/// The exponents of the first `m` cross pairs.
pub open spec fn cross_closed(n: nat, m: int, s: int, t: int) -> int {
    if n <= s < n + m {
        key_ind(n, t) - ind(t == 1 + s - n)
    } else {
        0
    }
}

/// The exponents of the equations of the first `m` signers.
pub open spec fn members_closed(n: nat, m: int, s: int, t: int) -> int {
    ind(0 <= s < m && t == 0) - ind(n <= s < n + m && t == 1 + s - n) - ind(
        s == 2 * n && 1 + n <= t < 1 + n + m,
    ) - ind(s == 2 * n + 1 && 1 + 2 * n <= t < 1 + 2 * n + m)
}

/// A product whose first factor is `1` or `0`.
pub proof fn lemma_indicator_product(a: int, b: int, c: bool)
    requires
        a == ind(c),
    ensures
        a * b == (if c { b } else { 0 }),
{
    if c {
        assert(a * b == b) by (nonlinear_arith)
            requires
                a == 1,
        ;
    } else {
        assert(a * b == 0) by (nonlinear_arith)
            requires
                a == 0,
        ;
    }
}

/// The exponents of the equation of the signer at `j`.
proof fn lemma_member_form(n: nat, j: int, s: int, t: int)
    requires
        0 <= j < n,
    ensures
        form(member_pairs(n, j), s, t) == ind(s == j && t == 0) - ind(s == n + j && t == 1 + j) - ind(
            s == 2 * n && t == 1 + n + j,
        ) - ind(s == 2 * n + 1 && t == 1 + 2 * n + j),
{
    reveal_with_fuel(g1_coef, 2);
    reveal_with_fuel(g2_coef, 2);
    let ps = member_pairs(n, j);
    lemma_form_four(ps[0], ps[1], ps[2], ps[3], s, t);
    assert(ps =~= seq![ps[0], ps[1], ps[2], ps[3]]);
    lemma_indicator_product(g1_coef(ps[0].0, s), g2_coef(ps[0].1, t), s == j);
    lemma_indicator_product(g1_coef(ps[1].0, s), g2_coef(ps[1].1, t), s == n + j);
    lemma_indicator_product(g1_coef(ps[2].0, s), g2_coef(ps[2].1, t), s == 2 * n);
    lemma_indicator_product(g1_coef(ps[3].0, s), g2_coef(ps[3].1, t), s == 2 * n + 1);
}

/// The exponents of the equations of the first `m` signers, added up.
proof fn lemma_members_total(n: nat, m: int, s: int, t: int)
    requires
        0 <= m <= n,
    ensures
        forms_total(members(n).take(m), s, t) == members_closed(n, m, s, t),
    decreases m,
{
    if m > 0 {
        lemma_members_total(n, m - 1, s, t);
        assert(members(n).take(m).drop_last() =~= members(n).take(m - 1));
        assert(members(n).take(m).last() == member_pairs(n, m - 1));
        lemma_member_form(n, m - 1, s, t);
    } else {
        assert(members(n).take(m).len() == 0);
    }
}

/// The exponents of the first `m` cross pairs, added up.
proof fn lemma_cross_form(n: nat, m: int, s: int, t: int)
    requires
        1 <= n,
        0 <= m <= n,
    ensures
        form(cross_pairs(n).take(m), s, t) == cross_closed(n, m, s, t),
    decreases m,
{
    if m > 0 {
        reveal_with_fuel(g2_coef, 2);
        reveal_with_fuel(g1_coef, 1);
        lemma_cross_form(n, m - 1, s, t);
        let ps = cross_pairs(n).take(m);
        assert(ps.drop_last() =~= cross_pairs(n).take(m - 1));
        let x = ps.last();
        assert(x == cross_pairs(n)[m - 1]);
        lemma_key_fold_coef(n as int, t);
        assert(g2_coef(x.1, t) == key_ind(n, t) - ind(t == m));
        assert(g1_coef(x.0, s) == ind(s == n + m - 1));
        lemma_indicator_product(g1_coef(x.0, s), g2_coef(x.1, t), s == n + m - 1);
    } else {
        assert(cross_pairs(n).take(m).len() == 0);
    }
}

/// The exponents of the aggregate's equation before its cross term.
proof fn lemma_aggregate_pairs_form(n: nat, s: int, t: int)
    requires
        1 <= n,
    ensures
        form(aggregate_pairs(n), s, t) == ind(0 <= s < n && t == 0) - (if n <= s < 2 * n {
            key_ind(n, t)
        } else {
            0
        }) - ind(s == 2 * n && 1 + n <= t < 1 + 2 * n) - ind(s == 2 * n + 1 && 1 + 2 * n <= t < 1 + 3 * n),
{
    reveal_with_fuel(g1_coef, 2);
    reveal_with_fuel(g2_coef, 2);
    let ps = aggregate_pairs(n);
    lemma_form_four(ps[0], ps[1], ps[2], ps[3], s, t);
    assert(ps =~= seq![ps[0], ps[1], ps[2], ps[3]]);
    lemma_g1_fold_coef(0, n as int, s);
    lemma_g1_fold_coef(n, n as int, s);
    lemma_key_fold_coef(n as int, t);
    lemma_g2_fold_coef(1 + n, n as int, t);
    lemma_g2_fold_coef(1 + 2 * n, n as int, t);
    lemma_indicator_product(g1_coef(ps[0].0, s), g2_coef(ps[0].1, t), 0 <= s < n);
    lemma_indicator_product(g1_coef(ps[1].0, s), g2_coef(ps[1].1, t), n <= s < 2 * n);
    lemma_indicator_product(g1_coef(ps[2].0, s), g2_coef(ps[2].1, t), s == 2 * n);
    lemma_indicator_product(g1_coef(ps[3].0, s), g2_coef(ps[3].1, t), s == 2 * n + 1);
}

/// The exponents of the aggregate's equation with its cross term are those
/// of the equations of all its signers, added up.
pub proof fn lemma_aggregate_forms(n: nat, s: int, t: int)
    requires
        1 <= n,
    ensures
        form(aggregate_pairs(n) + cross_pairs(n), s, t) == forms_total(members(n), s, t),
{
    lemma_form_append(aggregate_pairs(n), cross_pairs(n), s, t);
    lemma_aggregate_pairs_form(n, s, t);
    lemma_cross_form(n, n as int, s, t);
    lemma_members_total(n, n as int, s, t);
    assert(cross_pairs(n).take(n as int) =~= cross_pairs(n));
    assert(members(n).take(n as int) =~= members(n));
}

/// The pairs of the equation of a local opening for the signer at `j`
/// together with that signer's concealed signature, before the cross term.
pub open spec fn local_pairs(n: nat, j: int) -> Seq<(G1Term, G2Term)> {
    seq![
        (g1_fold_except(0, j, n as int), b2(0)),
        (g1_fold_except(n, j, n as int), neg2(key_fold(n as int))),
        (b1(j as nat), b2(0)),
        (b1((n + j) as nat), neg2(b2((1 + j) as nat))),
        (b1(2 * n), neg2(g2_fold_except(1 + n, j, n as int))),
        (b1(2 * n + 1), neg2(g2_fold_except(1 + 2 * n, j, n as int))),
        (b1(2 * n), neg2(b2((1 + n + j) as nat))),
        (b1(2 * n + 1), neg2(b2((1 + 2 * n + j) as nat))),
    ]
}

/// The exponents of the local equation of the signer at `j`, with the cross
/// term of the opening, are those of the equations of all the signers.
pub proof fn lemma_local_forms(n: nat, j: int, s: int, t: int)
    requires
        0 <= j < n,
    ensures
        form(local_pairs(n, j) + cross_pairs(n).remove(j), s, t) == forms_total(members(n), s, t),
{
    reveal_with_fuel(g1_coef, 2);
    reveal_with_fuel(g2_coef, 2);
    let ps = local_pairs(n, j);
    lemma_form_append(ps, cross_pairs(n).remove(j), s, t);
    lemma_form_remove(cross_pairs(n), j, s, t);
    lemma_cross_form(n, n as int, s, t);
    assert(cross_pairs(n).take(n as int) =~= cross_pairs(n));
    lemma_members_total(n, n as int, s, t);
    assert(members(n).take(n as int) =~= members(n));
    lemma_form_eight(ps, s, t);
    let a = ps.take(4);
    let b = ps.skip(4);
    lemma_form_four(a[0], a[1], a[2], a[3], s, t);
    lemma_form_four(b[0], b[1], b[2], b[3], s, t);
    assert(a =~= seq![a[0], a[1], a[2], a[3]]);
    assert(b =~= seq![b[0], b[1], b[2], b[3]]);
    lemma_g1_fold_except_coef(0, j, n as int, s);
    lemma_g1_fold_except_coef(n, j, n as int, s);
    lemma_key_fold_coef(n as int, t);
    lemma_g2_fold_except_coef(1 + n, j, n as int, t);
    lemma_g2_fold_except_coef(1 + 2 * n, j, n as int, t);
    lemma_indicator_product(g1_coef(a[0].0, s), g2_coef(a[0].1, t), 0 <= s < n && s != j);
    lemma_indicator_product(g1_coef(a[1].0, s), g2_coef(a[1].1, t), n <= s < 2 * n && s != n + j);
    lemma_indicator_product(g1_coef(a[2].0, s), g2_coef(a[2].1, t), s == j);
    lemma_indicator_product(g1_coef(a[3].0, s), g2_coef(a[3].1, t), s == n + j);
    lemma_indicator_product(g1_coef(b[0].0, s), g2_coef(b[0].1, t), s == 2 * n);
    lemma_indicator_product(g1_coef(b[1].0, s), g2_coef(b[1].1, t), s == 2 * n + 1);
    lemma_indicator_product(g1_coef(b[2].0, s), g2_coef(b[2].1, t), s == 2 * n);
    lemma_indicator_product(g1_coef(b[3].0, s), g2_coef(b[3].1, t), s == 2 * n + 1);
    let x = cross_pairs(n)[j];
    assert(g2_coef(x.1, t) == key_ind(n, t) - ind(t == 1 + j));
    assert(g1_coef(x.0, s) == ind(s == n + j));
    lemma_indicator_product(g1_coef(x.0, s), g2_coef(x.1, t), s == n + j);
}

} // verus!
