use vstd::prelude::*;

use crate::aggregate::{commitment_prefix, commitment_prefix_except, proof_prefix, proof_prefix_except};
use crate::bilinear::{g1_coef, g1_fits, g1_value, g2_coef, g2_fits, g2_value, G1Term, G2Term};
use crate::types::{CommitmentModel, ProofModel};
use crate::verify::key_prefix;

verus! {

/// `1` where `c` holds, else `0`.
pub open spec fn ind(c: bool) -> int {
    if c { 1 } else { 0 }
}

/// The sum, from the identity on, of the bases `off .. off + i` of G1.
pub open spec fn g1_fold(off: nat, i: int) -> G1Term
    decreases i,
{
    if i <= 0 {
        G1Term::Zero
    } else {
        G1Term::Sum(Box::new(g1_fold(off, i - 1)), Box::new(G1Term::Base((off + i - 1) as nat)))
    }
}

/// As `g1_fold`, leaving out the base `off + j`.
pub open spec fn g1_fold_except(off: nat, j: int, i: int) -> G1Term
    decreases i,
{
    if i <= 0 {
        G1Term::Zero
    } else if i - 1 == j {
        g1_fold_except(off, j, i - 1)
    } else {
        G1Term::Sum(Box::new(g1_fold_except(off, j, i - 1)), Box::new(G1Term::Base((off + i - 1) as nat)))
    }
}

/// The sum, from the identity on, of the bases `off .. off + i` of G2.
pub open spec fn g2_fold(off: nat, i: int) -> G2Term
    decreases i,
{
    if i <= 0 {
        G2Term::Zero
    } else {
        G2Term::Sum(Box::new(g2_fold(off, i - 1)), Box::new(G2Term::Base((off + i - 1) as nat)))
    }
}

/// As `g2_fold`, leaving out the base `off + j`.
pub open spec fn g2_fold_except(off: nat, j: int, i: int) -> G2Term
    decreases i,
{
    if i <= 0 {
        G2Term::Zero
    } else if i - 1 == j {
        g2_fold_except(off, j, i - 1)
    } else {
        G2Term::Sum(Box::new(g2_fold_except(off, j, i - 1)), Box::new(G2Term::Base((off + i - 1) as nat)))
    }
}

/// The sum of the keys, the bases `1 .. 1 + i` of G2, from the first on.
pub open spec fn key_fold(i: int) -> G2Term
    decreases i,
{
    if i <= 1 {
        G2Term::Base(1)
    } else {
        G2Term::Sum(Box::new(key_fold(i - 1)), Box::new(G2Term::Base(i as nat)))
    }
}

pub proof fn lemma_g1_fold_coef(off: nat, i: int, s: int)
    requires
        i >= 0,
    ensures
        g1_coef(g1_fold(off, i), s) == ind(off <= s < off + i),
    decreases i,
{
    reveal_with_fuel(g1_coef, 2);
    if i > 0 {
        lemma_g1_fold_coef(off, i - 1, s);
    }
}

pub proof fn lemma_g1_fold_except_coef(off: nat, j: int, i: int, s: int)
    requires
        i >= 0,
    ensures
        g1_coef(g1_fold_except(off, j, i), s) == ind(off <= s < off + i && s != off + j),
    decreases i,
{
    reveal_with_fuel(g1_coef, 2);
    if i > 0 {
        lemma_g1_fold_except_coef(off, j, i - 1, s);
    }
}

pub proof fn lemma_g2_fold_coef(off: nat, i: int, t: int)
    requires
        i >= 0,
    ensures
        g2_coef(g2_fold(off, i), t) == ind(off <= t < off + i),
    decreases i,
{
    reveal_with_fuel(g2_coef, 2);
    if i > 0 {
        lemma_g2_fold_coef(off, i - 1, t);
    }
}

pub proof fn lemma_g2_fold_except_coef(off: nat, j: int, i: int, t: int)
    requires
        i >= 0,
    ensures
        g2_coef(g2_fold_except(off, j, i), t) == ind(off <= t < off + i && t != off + j),
    decreases i,
{
    reveal_with_fuel(g2_coef, 2);
    if i > 0 {
        lemma_g2_fold_except_coef(off, j, i - 1, t);
    }
}

pub proof fn lemma_key_fold_coef(i: int, t: int)
    requires
        i >= 1,
    ensures
        g2_coef(key_fold(i), t) == ind(1 <= t < 1 + i),
    decreases i,
{
    reveal_with_fuel(g2_coef, 2);
    if i > 1 {
        lemma_key_fold_coef(i - 1, t);
    }
}

pub proof fn lemma_g1_fold_fits(off: nat, i: int, n: nat)
    requires
        off + i <= n,
    ensures
        g1_fits(g1_fold(off, i), n),
        forall|j: int| g1_fits(#[trigger] g1_fold_except(off, j, i), n),
    decreases i,
{
    reveal_with_fuel(g1_fits, 2);
    if i > 0 {
        lemma_g1_fold_fits(off, i - 1, n);
        assert forall|j: int| g1_fits(#[trigger] g1_fold_except(off, j, i), n) by {
            assert(g1_fits(g1_fold_except(off, j, i - 1), n));
        }
    }
}

pub proof fn lemma_g2_fold_fits(off: nat, i: int, n: nat)
    requires
        off + i <= n,
    ensures
        g2_fits(g2_fold(off, i), n),
        forall|j: int| g2_fits(#[trigger] g2_fold_except(off, j, i), n),
    decreases i,
{
    reveal_with_fuel(g2_fits, 2);
    if i > 0 {
        lemma_g2_fold_fits(off, i - 1, n);
        assert forall|j: int| g2_fits(#[trigger] g2_fold_except(off, j, i), n) by {
            assert(g2_fits(g2_fold_except(off, j, i - 1), n));
        }
    }
}

pub proof fn lemma_key_fold_fits(i: int, n: nat)
    requires
        1 <= i,
        1 + i <= n,
    ensures
        g2_fits(key_fold(i), n),
    decreases i,
{
    reveal_with_fuel(g2_fits, 2);
    if i > 1 {
        lemma_key_fold_fits(i - 1, n);
    }
}

/// The first (or, where `second`, the second) point of a commitment.
pub open spec fn pick(c: CommitmentModel, second: bool) -> Seq<u8> {
    if second { c.c2 } else { c.c1 }
}

/// The first (or, where `second`, the second) point of a proof.
pub open spec fn pick_z(z: ProofModel, second: bool) -> Seq<u8> {
    if second { z.z2 } else { z.z1 }
}

/// Over bases that hold the commitments' points from `off` on, the fold is
/// the point of the running sum of the commitments.
pub proof fn lemma_g1_fold_value(cs: Seq<CommitmentModel>, second: bool, off: nat, p: Seq<Seq<u8>>, i: int)
    requires
        0 <= i <= cs.len(),
        off + cs.len() <= p.len(),
        forall|k: int| 0 <= k < cs.len() ==> p[off + k] == pick(#[trigger] cs[k], second),
    ensures
        g1_value(g1_fold(off, i), p) == pick(commitment_prefix(cs, i), second),
        forall|j: int| g1_value(#[trigger] g1_fold_except(off, j, i), p) == pick(commitment_prefix_except(cs, j, i), second),
    decreases i,
{
    if i > 0 {
        reveal_with_fuel(g1_value, 2);
        lemma_g1_fold_value(cs, second, off, p, i - 1);
        assert(p[off + (i - 1)] == pick(cs[i - 1], second));
        assert forall|j: int| g1_value(#[trigger] g1_fold_except(off, j, i), p) == pick(
            commitment_prefix_except(cs, j, i),
            second,
        ) by {
            assert(g1_value(g1_fold_except(off, j, i - 1), p) == pick(commitment_prefix_except(cs, j, i - 1), second));
        }
    } else {
        reveal_with_fuel(g1_value, 2);
    }
}

/// The G2 counterpart of `lemma_g1_fold_value`, for the proofs.
pub proof fn lemma_g2_fold_value(zs: Seq<ProofModel>, second: bool, off: nat, q: Seq<Seq<u8>>, i: int)
    requires
        0 <= i <= zs.len(),
        off + zs.len() <= q.len(),
        forall|k: int| 0 <= k < zs.len() ==> q[off + k] == pick_z(#[trigger] zs[k], second),
    ensures
        g2_value(g2_fold(off, i), q) == pick_z(proof_prefix(zs, i), second),
        forall|j: int| g2_value(#[trigger] g2_fold_except(off, j, i), q) == pick_z(proof_prefix_except(zs, j, i), second),
    decreases i,
{
    if i > 0 {
        reveal_with_fuel(g2_value, 2);
        lemma_g2_fold_value(zs, second, off, q, i - 1);
        assert(q[off + (i - 1)] == pick_z(zs[i - 1], second));
        assert forall|j: int| g2_value(#[trigger] g2_fold_except(off, j, i), q) == pick_z(
            proof_prefix_except(zs, j, i),
            second,
        ) by {
            assert(g2_value(g2_fold_except(off, j, i - 1), q) == pick_z(proof_prefix_except(zs, j, i - 1), second));
        }
    } else {
        reveal_with_fuel(g2_value, 2);
    }
}

/// Over bases that hold the keys from 1 on, the key fold is the running sum.
pub proof fn lemma_key_fold_value(keys: Seq<Seq<u8>>, q: Seq<Seq<u8>>, i: int)
    requires
        1 <= i <= keys.len(),
        1 + keys.len() <= q.len(),
        forall|k: int| 0 <= k < keys.len() ==> q[1 + k] == #[trigger] keys[k],
    ensures
        g2_value(key_fold(i), q) == key_prefix(keys, i),
    decreases i,
{
    if i > 1 {
        reveal_with_fuel(g2_value, 2);
        lemma_key_fold_value(keys, q, i - 1);
        assert(q[1 + (i - 1)] == keys[i - 1]);
    } else {
        reveal_with_fuel(g2_value, 2);
    }
}

} // verus!
