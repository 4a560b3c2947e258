use ark_std::rand::rngs::StdRng;
use vstd::prelude::*;

use crate::curve::{g2_generator, g2_mul, g2_scaled, Scalar, G2};
use crate::params::{g2_generator_bytes, g2_identity_bytes, scalar_value};
use crate::utils::sample_nonzero;

verus! {

/// A BLS verification key `vk = g2^x`, a point of G2.
#[derive(Clone, Debug, PartialEq, Eq)]
pub struct VerifyKey {
    pub value: G2,
}

/// A BLS signing key `x`, an element of `Fr` that is not zero.
#[derive(Clone, PartialEq, Eq)]
pub struct SignKey {
    pub value: Scalar,
}

impl View for VerifyKey {
    type V = Seq<u8>;

    open spec fn view(&self) -> Seq<u8> {
        self.value@
    }
}

impl View for SignKey {
    type V = nat;

    open spec fn view(&self) -> nat {
        scalar_value(self.value@)
    }
}

/// The verification key `g2^x` that belongs to the signing key `x`.
pub open spec fn verify_key_of(x: nat) -> Seq<u8> {
    g2_scaled(g2_generator_bytes(), x)
}

/// Derives the verification key of a signing key: the generator of G2 times
/// the key, which is not the identity where the key is not zero.
pub fn derive_verify_key(sk: &SignKey) -> (vk: VerifyKey)
    ensures
        vk@ == verify_key_of(sk@),
        sk@ != 0 ==> vk@ != g2_identity_bytes(),
{
    let g2 = g2_generator();
    VerifyKey { value: g2_mul(&g2, &sk.value) }
}

/// Standard BLS key generation: draws `x` from `Fr` without zero and returns
/// `(g2^x, x)`.
pub fn key_gen(rng: &mut StdRng) -> (keys: (VerifyKey, SignKey))
    ensures
        keys.1@ != 0,
        keys.0@ == verify_key_of(keys.1@),
        keys.0@ != g2_identity_bytes(),
{
    let x = sample_nonzero(rng);
    let sk = SignKey { value: x };
    let vk = derive_verify_key(&sk);
    (vk, sk)
}

} // verus!
