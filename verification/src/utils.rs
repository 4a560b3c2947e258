use ark_std::rand::rngs::StdRng;
use vstd::prelude::*;

use crate::curve::{hash_message, hashed_to_g1, random_scalar, scalar_is_zero, scalar_one, Scalar, G1};
use crate::error::HashingError;
use crate::params::scalar_value;

verus! {

/// Draws elements of `Fr` from `rng` until one is not zero, and returns it.
///
/// The scheme needs `Fr` without zero for the signing key and for the setup's
/// `a`. Should `u64::MAX` draws in a row all be zero, `1` is returned.
pub fn sample_nonzero(rng: &mut StdRng) -> (r: Scalar)
    ensures
        scalar_value(r@) != 0,
{
    let mut attempts: u64 = 0;
    while attempts < u64::MAX
        decreases u64::MAX - attempts,
    {
        let value = random_scalar(rng);
        if !scalar_is_zero(&value) {
            return value;
        }
        attempts = attempts + 1;
    }
    scalar_one()
}

/// The domain separation tag under which messages are hashed to G1, the
/// ASCII text `BLS_SIG_BLS12381G1_XMD:SHA-256_SSWU_RO_NUL_`.
pub open spec fn g1_hash_domain() -> Seq<u8> {
    seq![
        0x42u8, 0x4cu8, 0x53u8, 0x5fu8, 0x53u8, 0x49u8, 0x47u8, 0x5fu8, 0x42u8, 0x4cu8, 0x53u8, 0x31u8, 0x32u8, 0x33u8, 0x38u8,
        0x31u8, 0x47u8, 0x31u8, 0x5fu8, 0x58u8, 0x4du8, 0x44u8, 0x3au8, 0x53u8, 0x48u8, 0x41u8, 0x2du8, 0x32u8, 0x35u8, 0x36u8,
        0x5fu8, 0x53u8, 0x53u8, 0x57u8, 0x55u8, 0x5fu8, 0x52u8, 0x4fu8, 0x5fu8, 0x4eu8, 0x55u8, 0x4cu8, 0x5fu8,
    ]
}

/// The point of G1 that a message hashes to.
pub open spec fn message_point(message: Seq<u8>) -> Seq<u8> {
    hashed_to_g1(g1_hash_domain(), message)
}

/// The bytes of the domain separation tag.
fn g1_hash_dst() -> (r: Vec<u8>)
    ensures
        r@ == g1_hash_domain(),
{
    vec![
        0x42, 0x4c, 0x53, 0x5f, 0x53, 0x49, 0x47, 0x5f, 0x42, 0x4c, 0x53, 0x31, 0x32, 0x33, 0x38,
        0x31, 0x47, 0x31, 0x5f, 0x58, 0x4d, 0x44, 0x3a, 0x53, 0x48, 0x41, 0x2d, 0x32, 0x35, 0x36,
        0x5f, 0x53, 0x53, 0x57, 0x55, 0x5f, 0x52, 0x4f, 0x5f, 0x4e, 0x55, 0x4c, 0x5f,
    ]
}

/// Hashes `message` to a point of G1 under the scheme's domain tag.
pub fn hash_to_g1(message: &[u8]) -> (r: Result<G1, HashingError>)
    ensures
        r matches Ok(p) && p@ == message_point(message@),
{
    let dst = g1_hash_dst();
    match hash_message(dst.as_slice(), message) {
        Ok(p) => Ok(p),
        Err(_) => Err(HashingError::Failed),
    }
}

} // verus!
