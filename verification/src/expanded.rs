use vstd::prelude::*;

use crate::aggregate::{commitment_prefix, commitment_prefix_except, proof_prefix, proof_prefix_except};
use crate::bilinear::{g1_coef, g1_fits, g1_value, g2_coef, g2_fits, g2_value, G1Term, G2Term};
use crate::covers::{b1, b2, lemma_g1_times_base, lemma_g2_times_base, sum1, times1};
use crate::fold_terms::{ind, pick, pick_z};
use crate::params::fr_modulus;
use crate::types::{AuxModel, CommitmentModel, ProofModel};

verus! {

/// The sum, from the identity on, of the first `i` terms of `ts` in G1.
pub open spec fn g1_tfold(ts: Seq<G1Term>, i: int) -> G1Term
    decreases i,
{
    if i <= 0 {
        G1Term::Zero
    } else {
        G1Term::Sum(Box::new(g1_tfold(ts, i - 1)), Box::new(ts[i - 1]))
    }
}

/// As `g1_tfold`, leaving out the term at `j`.
pub open spec fn g1_tfold_except(ts: Seq<G1Term>, j: int, i: int) -> G1Term
    decreases i,
{
    if i <= 0 {
        G1Term::Zero
    } else if i - 1 == j {
        g1_tfold_except(ts, j, i - 1)
    } else {
        G1Term::Sum(Box::new(g1_tfold_except(ts, j, i - 1)), Box::new(ts[i - 1]))
    }
}

/// The sum, from the identity on, of the first `i` terms of `ts` in G2.
pub open spec fn g2_tfold(ts: Seq<G2Term>, i: int) -> G2Term
    decreases i,
{
    if i <= 0 {
        G2Term::Zero
    } else {
        G2Term::Sum(Box::new(g2_tfold(ts, i - 1)), Box::new(ts[i - 1]))
    }
}

/// As `g2_tfold`, leaving out the term at `j`.
pub open spec fn g2_tfold_except(ts: Seq<G2Term>, j: int, i: int) -> G2Term
    decreases i,
{
    if i <= 0 {
        G2Term::Zero
    } else if i - 1 == j {
        g2_tfold_except(ts, j, i - 1)
    } else {
        G2Term::Sum(Box::new(g2_tfold_except(ts, j, i - 1)), Box::new(ts[i - 1]))
    }
}

/// How many times the base `s` is counted in the first `i` terms of `ts`.
pub open spec fn g1_tsum(ts: Seq<G1Term>, i: int, s: int) -> int
    decreases i,
{
    if i <= 0 {
        0
    } else {
        g1_tsum(ts, i - 1, s) + g1_coef(ts[i - 1], s)
    }
}

/// How many times the base `t` is counted in the first `i` terms of `ts`.
pub open spec fn g2_tsum(ts: Seq<G2Term>, i: int, t: int) -> int
    decreases i,
{
    if i <= 0 {
        0
    } else {
        g2_tsum(ts, i - 1, t) + g2_coef(ts[i - 1], t)
    }
}

pub proof fn lemma_g1_tfold_coef(ts: Seq<G1Term>, j: int, i: int, s: int)
    requires
        0 <= j,
        i >= 0,
    ensures
        g1_coef(g1_tfold(ts, i), s) == g1_tsum(ts, i, s),
        g1_coef(g1_tfold_except(ts, j, i), s) == g1_tsum(ts, i, s) - (if j < i {
            g1_coef(ts[j], s)
        } else {
            0
        }),
    decreases i,
{
    reveal_with_fuel(g1_coef, 2);
    if i > 0 {
        lemma_g1_tfold_coef(ts, j, i - 1, s);
    }
}

pub proof fn lemma_g2_tfold_coef(ts: Seq<G2Term>, j: int, i: int, t: int)
    requires
        0 <= j,
        i >= 0,
    ensures
        g2_coef(g2_tfold(ts, i), t) == g2_tsum(ts, i, t),
        g2_coef(g2_tfold_except(ts, j, i), t) == g2_tsum(ts, i, t) - (if j < i {
            g2_coef(ts[j], t)
        } else {
            0
        }),
    decreases i,
{
    reveal_with_fuel(g2_coef, 2);
    if i > 0 {
        lemma_g2_tfold_coef(ts, j, i - 1, t);
    }
}

pub proof fn lemma_g1_tfold_fits(ts: Seq<G1Term>, i: int, n: nat)
    requires
        0 <= i <= ts.len(),
        forall|k: int| 0 <= k < ts.len() ==> g1_fits(#[trigger] ts[k], n),
    ensures
        g1_fits(g1_tfold(ts, i), n),
        forall|j: int| g1_fits(#[trigger] g1_tfold_except(ts, j, i), n),
    decreases i,
{
    reveal_with_fuel(g1_fits, 2);
    if i > 0 {
        lemma_g1_tfold_fits(ts, i - 1, n);
        assert forall|j: int| g1_fits(#[trigger] g1_tfold_except(ts, j, i), n) by {
            assert(g1_fits(g1_tfold_except(ts, j, i - 1), n));
            assert(g1_fits(ts[i - 1], n));
        }
    }
}

pub proof fn lemma_g2_tfold_fits(ts: Seq<G2Term>, i: int, n: nat)
    requires
        0 <= i <= ts.len(),
        forall|k: int| 0 <= k < ts.len() ==> g2_fits(#[trigger] ts[k], n),
    ensures
        g2_fits(g2_tfold(ts, i), n),
        forall|j: int| g2_fits(#[trigger] g2_tfold_except(ts, j, i), n),
    decreases i,
{
    reveal_with_fuel(g2_fits, 2);
    if i > 0 {
        lemma_g2_tfold_fits(ts, i - 1, n);
        assert forall|j: int| g2_fits(#[trigger] g2_tfold_except(ts, j, i), n) by {
            assert(g2_fits(g2_tfold_except(ts, j, i - 1), n));
            assert(g2_fits(ts[i - 1], n));
        }
    }
}

/// Over bases where the terms give the commitments' points, the fold gives
/// the point of the running sum of the commitments.
pub proof fn lemma_g1_tfold_value(ts: Seq<G1Term>, cs: Seq<CommitmentModel>, second: bool, p: Seq<Seq<u8>>, i: int)
    requires
        0 <= i <= cs.len(),
        ts.len() == cs.len(),
        forall|k: int| 0 <= k < cs.len() ==> g1_value(#[trigger] ts[k], p) == pick(cs[k], second),
    ensures
        g1_value(g1_tfold(ts, i), p) == pick(commitment_prefix(cs, i), second),
        forall|j: int| g1_value(#[trigger] g1_tfold_except(ts, j, i), p) == pick(commitment_prefix_except(cs, j, i), second),
    decreases i,
{
    reveal_with_fuel(g1_value, 2);
    if i > 0 {
        lemma_g1_tfold_value(ts, cs, second, p, i - 1);
        assert(g1_value(ts[i - 1], p) == pick(cs[i - 1], second));
        assert forall|j: int| g1_value(#[trigger] g1_tfold_except(ts, j, i), p) == pick(
            commitment_prefix_except(cs, j, i),
            second,
        ) by {
            assert(g1_value(g1_tfold_except(ts, j, i - 1), p) == pick(commitment_prefix_except(cs, j, i - 1), second));
        }
    }
}

/// The G2 counterpart of `lemma_g1_tfold_value`, for the proofs.
pub proof fn lemma_g2_tfold_value(ts: Seq<G2Term>, zs: Seq<ProofModel>, second: bool, q: Seq<Seq<u8>>, i: int)
    requires
        0 <= i <= zs.len(),
        ts.len() == zs.len(),
        forall|k: int| 0 <= k < zs.len() ==> g2_value(#[trigger] ts[k], q) == pick_z(zs[k], second),
    ensures
        g2_value(g2_tfold(ts, i), q) == pick_z(proof_prefix(zs, i), second),
        forall|j: int| g2_value(#[trigger] g2_tfold_except(ts, j, i), q) == pick_z(proof_prefix_except(zs, j, i), second),
    decreases i,
{
    reveal_with_fuel(g2_value, 2);
    if i > 0 {
        lemma_g2_tfold_value(ts, zs, second, q, i - 1);
        assert(g2_value(ts[i - 1], q) == pick_z(zs[i - 1], second));
        assert forall|j: int| g2_value(#[trigger] g2_tfold_except(ts, j, i), q) == pick_z(
            proof_prefix_except(zs, j, i),
            second,
        ) by {
            assert(g2_value(g2_tfold_except(ts, j, i - 1), q) == pick_z(proof_prefix_except(zs, j, i - 1), second));
        }
    }
}

/// The point `C_sig,k` of the `i`-th of `n` concealed signatures, written over
/// the bases `[v_k, w_k] + signatures + message points` of G1.
pub open spec fn sig_term(n: nat, i: int, a: AuxModel, second: bool) -> G1Term {
    if second {
        sum1(sum1(b1((2 + i) as nat), times1(b1(0), a.r_sig)), times1(b1(1), a.s_sig))
    } else {
        sum1(times1(b1(0), a.r_sig), times1(b1(1), a.s_sig))
    }
}

/// The point `C_M,k` of the `i`-th of `n` concealed signatures.
pub open spec fn msg_term(n: nat, i: int, a: AuxModel, second: bool) -> G1Term {
    if second {
        sum1(sum1(b1((2 + n + i) as nat), times1(b1(0), a.r_msg)), times1(b1(1), a.s_msg))
    } else {
        sum1(times1(b1(0), a.r_msg), times1(b1(1), a.s_msg))
    }
}

/// The point `z1` (or, where `second`, `z2`) of the `i`-th concealed
/// signature, written over the bases `[g2] + keys` of G2.
pub open spec fn proof_term(i: int, a: AuxModel, second: bool) -> G2Term {
    let (r, s) = if second { (a.s_sig, a.s_msg) } else { (a.r_sig, a.r_msg) };
    G2Term::Diff(
        Box::new(G2Term::Times(Box::new(b2(0)), r)),
        Box::new(G2Term::Times(Box::new(b2((1 + i) as nat)), s)),
    )
}

pub open spec fn sig_terms(auxs: Seq<AuxModel>, second: bool) -> Seq<G1Term> {
    Seq::new(auxs.len(), |i: int| sig_term(auxs.len(), i, auxs[i], second))
}

pub open spec fn msg_terms(auxs: Seq<AuxModel>, second: bool) -> Seq<G1Term> {
    Seq::new(auxs.len(), |i: int| msg_term(auxs.len(), i, auxs[i], second))
}

pub open spec fn proof_terms(auxs: Seq<AuxModel>, second: bool) -> Seq<G2Term> {
    Seq::new(auxs.len(), |i: int| proof_term(i, auxs[i], second))
}

/// The coefficients of the terms of the `i`-th concealed signature.
pub proof fn lemma_member_term_coefs(n: nat, i: int, a: AuxModel, second: bool, s: int, t: int)
    requires
        0 <= i < n,
    ensures
        g1_coef(sig_term(n, i, a, second), s) == (if second && s == 2 + i { 1int } else { 0 }) + (if s == 0 {
            a.r_sig as int
        } else {
            0
        }) + (if s == 1 { a.s_sig as int } else { 0 }),
        g1_coef(msg_term(n, i, a, second), s) == (if second && s == 2 + n + i { 1int } else { 0 }) + (if s
            == 0 {
            a.r_msg as int
        } else {
            0
        }) + (if s == 1 { a.s_msg as int } else { 0 }),
        g2_coef(proof_term(i, a, false), t) == (if t == 0 { a.r_sig as int } else { 0 }) - (if t == 1 + i {
            a.r_msg as int
        } else {
            0
        }),
        g2_coef(proof_term(i, a, true), t) == (if t == 0 { a.s_sig as int } else { 0 }) - (if t == 1 + i {
            a.s_msg as int
        } else {
            0
        }),
{
    reveal_with_fuel(g1_coef, 3);
    reveal_with_fuel(g2_coef, 2);
    lemma_g1_times_base(0, a.r_sig, s);
    lemma_g1_times_base(1, a.s_sig, s);
    lemma_g1_times_base(0, a.r_msg, s);
    lemma_g1_times_base(1, a.s_msg, s);
    lemma_g2_times_base(0, a.r_sig, t);
    lemma_g2_times_base((1 + i) as nat, a.r_msg, t);
    lemma_g2_times_base(0, a.s_sig, t);
    lemma_g2_times_base((1 + i) as nat, a.s_msg, t);
}

} // verus!
