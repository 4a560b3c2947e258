use ark_std::rand::rngs::StdRng;
use vstd::prelude::*;

use crate::curve::{g1_generator, g1_mul, g1_scaled, random_scalar, Scalar, G1};
use crate::params::{fr_modulus, g1_generator_bytes, g1_identity_bytes, scalar_value};
use crate::utils::sample_nonzero;

verus! {

/// `V = (v1, v2) = (g^a, g)`.
#[derive(Clone, Debug, PartialEq, Eq)]
pub struct V {
    pub v1: G1,
    pub v2: G1,
}

/// `W = (w1, w2) = (g^(ab), g^b)`.
#[derive(Clone, Debug, PartialEq, Eq)]
pub struct W {
    pub w1: G1,
    pub w2: G1,
}

/// The public parameters of concealment, `(V, W)`.
#[derive(Clone, Debug, PartialEq, Eq)]
pub struct CSetupParameters {
    pub v: V,
    pub w: W,
}

/// The four points of the parameters.
pub struct SetupModel {
    pub v1: Seq<u8>,
    pub v2: Seq<u8>,
    pub w1: Seq<u8>,
    pub w2: Seq<u8>,
}

impl View for CSetupParameters {
    type V = SetupModel;

    open spec fn view(&self) -> SetupModel {
        SetupModel { v1: self.v.v1@, v2: self.v.v2@, w1: self.w.w1@, w2: self.w.w2@ }
    }
}

/// The parameters made from the secrets `a` and `b`: `v = (g^a, g)` and
/// `w = v^b`.
pub open spec fn setup_of(a: nat, b: nat) -> SetupModel {
    let g = g1_generator_bytes();
    let ga = g1_scaled(g, a);
    SetupModel { v1: ga, v2: g, w1: g1_scaled(ga, b), w2: g1_scaled(g, b) }
}

/// Builds the parameters from the secrets `a` and `b`. Then `w1` is
/// `g^(ab)`, and `v1` is not the identity where `a` is not zero.
pub fn csetup_from_secrets(a: &Scalar, b: &Scalar) -> (p: CSetupParameters)
    ensures
        p@ == setup_of(scalar_value(a@), scalar_value(b@)),
        p@.w1 == g1_scaled(
            g1_generator_bytes(),
            (scalar_value(a@) * scalar_value(b@)) % fr_modulus(),
        ),
        scalar_value(a@) != 0 ==> p@.v1 != g1_identity_bytes(),
{
    let g = g1_generator();
    let ga = g1_mul(&g, a);
    let gb = g1_mul(&g, b);
    let gab = g1_mul(&ga, b);
    CSetupParameters { v: V { v1: ga, v2: g }, w: W { w1: gab, w2: gb } }
}

/// Samples `a` from `Fr` without zero and `b` from `Fr`, and builds
/// `v = (g^a, g)` and `w = v^b = (g^(ab), g^b)`.
pub fn csetup(rng: &mut StdRng) -> (p: CSetupParameters)
    ensures
        exists|a: nat, b: nat|
            {
                &&& 0 < a < fr_modulus()
                &&& b < fr_modulus()
                &&& p@ == setup_of(a, b)
                &&& p@.w1 == g1_scaled(g1_generator_bytes(), (a * b) % fr_modulus())
            },
        p.v.v2@ == g1_generator_bytes(),
        p.v.v1@ != g1_identity_bytes(),
{
    let a = sample_nonzero(rng);
    let b = random_scalar(rng);
    let p = csetup_from_secrets(&a, &b);
    assert(0 < scalar_value(a@) < fr_modulus() && scalar_value(b@) < fr_modulus());
    p
}

/// The parameters satisfy `w = v^b`: each point of `w` is the point of `v`
/// in the same place times `b`, and `v2` is the generator `g`.
pub proof fn lemma_setup_w_is_v_to_the_b(a: nat, b: nat)
    ensures
        setup_of(a, b).v2 == g1_generator_bytes(),
        setup_of(a, b).v1 == g1_scaled(setup_of(a, b).v2, a),
        setup_of(a, b).w1 == g1_scaled(setup_of(a, b).v1, b),
        setup_of(a, b).w2 == g1_scaled(setup_of(a, b).v2, b),
{
}

} // verus!
