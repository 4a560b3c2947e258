use vstd::prelude::*;

use crate::curve::{g1_mul, g1_scaled, G1};
use crate::error::HashingError;
use crate::keys::SignKey;
use crate::utils::{hash_to_g1, message_point};

verus! {

/// A BLS signature `H(m)^x`, a point of G1.
#[derive(Clone, Debug, PartialEq, Eq)]
pub struct Signature {
    pub value: G1,
}

impl View for Signature {
    type V = Seq<u8>;

    open spec fn view(&self) -> Seq<u8> {
        self.value@
    }
}

/// The signature of `message` under the signing key `x`: `H(message)^x`.
pub open spec fn sign_outcome(x: nat, message: Seq<u8>) -> Seq<u8> {
    g1_scaled(message_point(message), x)
}

/// Signs `message` with `sk`: hashes it to G1 and multiplies by the key.
pub fn sign(sk: &SignKey, message: &[u8]) -> (r: Result<Signature, HashingError>)
    ensures
        r matches Ok(s) && s@ == sign_outcome(sk@, message@),
{
    let h = hash_to_g1(message)?;
    let sig = g1_mul(&h, &sk.value);
    Ok(Signature { value: sig })
}

} // verus!
