use ark_bls12_381::{g1::Config as G1Config, Bls12_381, Fr, G1Affine, G1Projective, G2Affine};
use ark_ec::hashing::curve_maps::wb::WBMap;
use ark_ec::hashing::map_to_curve_hasher::MapToCurveBasedHasher;
use ark_ec::hashing::HashToCurve;
use ark_ec::pairing::{Pairing, PairingOutput};
use ark_ec::{AffineRepr, CurveGroup};
use ark_ff::field_hashers::DefaultFieldHasher;
use ark_ff::{PrimeField, UniformRand, Zero};
use ark_serialize::{CanonicalDeserialize, CanonicalSerialize};
use ark_std::rand::rngs::StdRng;
use sha2::Sha256;
use vstd::prelude::*;

use crate::bilinear::pairing_laws;

use crate::params::{
    fr_modulus, g1_generator_bytes, g1_identity_bytes, g2_generator_bytes, g2_identity_bytes, scalar_value,
};

verus! {

/// The random number generator that the scheme draws its secrets from.
#[verifier::external_type_specification]
#[verifier::external_body]
pub struct ExStdRng(StdRng);

/// The error that hashing to a curve can report.
#[verifier::external_type_specification]
#[verifier::external_body]
pub struct ExHashToCurveError(ark_ec::hashing::HashToCurveError);

/// A point of G1, held as its canonical compressed encoding (48 bytes).
///
/// Every point of this crate is made by encoding an `ark_bls12_381` point with
/// `serialize_compressed`. The wrappers below decode with
/// `deserialize_compressed`, which recomputes `y` from `x` by the curve
/// equation, so that the point lies on the curve, and then checks that it lies
/// in the prime order subgroup; where decoding fails they take the identity.
/// So every byte string stands for a point of the group, and two canonical
/// encodings are equal exactly when the points are.
#[derive(Clone, Debug, PartialEq, Eq)]
pub struct G1 {
    bytes: Vec<u8>,
}

/// A point of G2, held as its canonical compressed encoding (96 bytes),
/// decoded as a G1 point is.
#[derive(Clone, Debug, PartialEq, Eq)]
pub struct G2 {
    bytes: Vec<u8>,
}

/// An element of the target group GT, held as its canonical encoding.
#[derive(Clone, Debug, PartialEq, Eq)]
pub struct Gt {
    bytes: Vec<u8>,
}

/// An element of the scalar field `Fr`, held as little-endian bytes.
#[derive(Clone, Debug, PartialEq, Eq)]
pub struct Scalar {
    bytes: Vec<u8>,
}

impl View for G1 {
    type V = Seq<u8>;

    closed spec fn view(&self) -> Seq<u8> {
        self.bytes@
    }
}

impl View for G2 {
    type V = Seq<u8>;

    closed spec fn view(&self) -> Seq<u8> {
        self.bytes@
    }
}

impl View for Gt {
    type V = Seq<u8>;

    closed spec fn view(&self) -> Seq<u8> {
        self.bytes@
    }
}

impl View for Scalar {
    type V = Seq<u8>;

    closed spec fn view(&self) -> Seq<u8> {
        self.bytes@
    }
}

fn bytes_equal(a: &Vec<u8>, b: &Vec<u8>) -> (r: bool)
    ensures
        r == (a@ == b@),
{
    if a.len() != b.len() {
        return false;
    }
    let mut i: usize = 0;
    while i < a.len()
        invariant
            a.len() == b.len(),
            i <= a.len(),
            forall|k: int| 0 <= k < i ==> a@[k] == b@[k],
        decreases a.len() - i,
    {
        if a[i] != b[i] {
            return false;
        }
        i = i + 1;
    }
    assert(a@ =~= b@);
    true
}

fn bytes_copy(a: &Vec<u8>) -> (r: Vec<u8>)
    ensures
        r@ == a@,
{
    let mut r: Vec<u8> = Vec::new();
    let mut i: usize = 0;
    while i < a.len()
        invariant
            i <= a.len(),
            r@ == a@.take(i as int),
        decreases a.len() - i,
    {
        r.push(a[i]);
        i = i + 1;
        assert(r@ =~= a@.take(i as int));
    }
    assert(a@.take(a.len() as int) =~= a@);
    r
}

impl G1 {
    /// The canonical encoding of this point.
    pub fn to_bytes(&self) -> (r: Vec<u8>)
        ensures
            r@ == self@,
    {
        bytes_copy(&self.bytes)
    }

    /// A copy of this point.
    pub fn duplicate(&self) -> (r: G1)
        ensures
            r@ == self@,
    {
        G1 { bytes: bytes_copy(&self.bytes) }
    }

    /// Whether the two points are equal.
    pub fn equals(&self, other: &G1) -> (r: bool)
        ensures
            r == (self@ == other@),
    {
        bytes_equal(&self.bytes, &other.bytes)
    }
}

impl G2 {
    /// The canonical encoding of this point.
    pub fn to_bytes(&self) -> (r: Vec<u8>)
        ensures
            r@ == self@,
    {
        bytes_copy(&self.bytes)
    }

    /// A copy of this point.
    pub fn duplicate(&self) -> (r: G2)
        ensures
            r@ == self@,
    {
        G2 { bytes: bytes_copy(&self.bytes) }
    }

    /// Whether the two points are equal.
    pub fn equals(&self, other: &G2) -> (r: bool)
        ensures
            r == (self@ == other@),
    {
        bytes_equal(&self.bytes, &other.bytes)
    }
}

/// The encoding of what `ark_bls12_381` computes for the sum of the G1 points
/// encoded by `a` and `b`.
pub uninterp spec fn g1_sum(a: Seq<u8>, b: Seq<u8>) -> Seq<u8>;

/// The encoding of what `ark_bls12_381` computes for the G1 point encoded by
/// `p` multiplied by the element `k` of `Fr`.
pub uninterp spec fn g1_scaled(p: Seq<u8>, k: nat) -> Seq<u8>;

/// The G2 counterpart of `g1_sum`.
pub uninterp spec fn g2_sum(a: Seq<u8>, b: Seq<u8>) -> Seq<u8>;

/// The G2 counterpart of `g1_scaled`.
pub uninterp spec fn g2_scaled(p: Seq<u8>, k: nat) -> Seq<u8>;

/// The encoding of what `ark_bls12_381` computes for `a - b` in G2.
pub uninterp spec fn g2_difference(a: Seq<u8>, b: Seq<u8>) -> Seq<u8>;

/// The encoding of what `ark_bls12_381` computes for `-a` in G2.
pub uninterp spec fn g2_negated(a: Seq<u8>) -> Seq<u8>;

/// The encoding of what `ark_ec` computes for the sum of two elements of GT.
pub uninterp spec fn gt_sum(a: Seq<u8>, b: Seq<u8>) -> Seq<u8>;

/// Whether `ark_ec` finds the element of GT to be its identity.
pub uninterp spec fn gt_is_identity(a: Seq<u8>) -> bool;

/// The encoding of what `Bls12_381::multi_pairing` computes for the G1 points
/// `a` and the G2 points `b`, paired position by position.
pub uninterp spec fn pairing_product(a: Seq<Seq<u8>>, b: Seq<Seq<u8>>) -> Seq<u8>;

/// `p` commutes with every point under `g1_sum`.
pub open spec fn g1_commutes(p: Seq<u8>) -> bool {
    forall|x: Seq<u8>| #[trigger] g1_sum(x, p) == g1_sum(p, x)
}

/// Adding `r` to any point is adding `a`, then `b`.
pub open spec fn g1_regroups(r: Seq<u8>, a: Seq<u8>, b: Seq<u8>) -> bool {
    forall|x: Seq<u8>| #[trigger] g1_sum(x, r) == g1_sum(g1_sum(x, a), b)
}

/// `p` commutes with every point under `g2_sum`.
pub open spec fn g2_commutes(p: Seq<u8>) -> bool {
    forall|x: Seq<u8>| #[trigger] g2_sum(x, p) == g2_sum(p, x)
}

/// Adding `r` to any point is adding `a`, then `b`.
pub open spec fn g2_regroups(r: Seq<u8>, a: Seq<u8>, b: Seq<u8>) -> bool {
    forall|x: Seq<u8>| #[trigger] g2_sum(x, r) == g2_sum(g2_sum(x, a), b)
}

/// The views of a list of G1 points.
pub open spec fn g1_views(s: Seq<G1>) -> Seq<Seq<u8>> {
    s.map_values(|p: G1| p@)
}

/// The views of a list of G2 points.
pub open spec fn g2_views(s: Seq<G2>) -> Seq<Seq<u8>> {
    s.map_values(|p: G2| p@)
}

/// `G1Affine::identity()`, the point at infinity of G1.
///
/// Trusted: the encoding is that of `serialize_compressed` in
/// `ark_bls12_381` (compression and infinity flags over zeros), and the
/// identity commutes with every point under `g1_sum`, as in any group.
#[verifier::external_body]
pub(crate) fn g1_identity() -> (z: G1)
    ensures
        z@ == g1_identity_bytes(),
        g1_commutes(z@),
{
    let mut bytes = Vec::new();
    G1Affine::zero().serialize_compressed(&mut bytes).unwrap();
    G1 { bytes }
}

/// `G2Affine::identity()`, the point at infinity of G2.
///
/// Trusted as `g1_identity` is.
#[verifier::external_body]
pub(crate) fn g2_identity() -> (z: G2)
    ensures
        z@ == g2_identity_bytes(),
        g2_commutes(z@),
{
    let mut bytes = Vec::new();
    G2Affine::zero().serialize_compressed(&mut bytes).unwrap();
    G2 { bytes }
}

/// `G1Affine::generator()`.
///
/// Trusted: its encoding is `x` of `G1_GENERATOR_X` in `ark_bls12_381`, 48
/// big-endian bytes, with the compression flag set and the sign flag clear,
/// as the crate's own compressed test vectors list it.
#[verifier::external_body]
pub(crate) fn g1_generator() -> (g: G1)
    ensures
        g@ == g1_generator_bytes(),
{
    let mut bytes = Vec::new();
    G1Affine::generator().serialize_compressed(&mut bytes).unwrap();
    G1 { bytes }
}

/// `G2Affine::generator()`.
///
/// Trusted: its encoding is `x.c1` then `x.c0` of `G2_GENERATOR_X` in
/// `ark_bls12_381`, 48 big-endian bytes each, with the compression flag set
/// and the sign flag clear, as the crate's own compressed test vectors list it.
#[verifier::external_body]
pub(crate) fn g2_generator() -> (g: G2)
    ensures
        g@ == g2_generator_bytes(),
{
    let mut bytes = Vec::new();
    G2Affine::generator().serialize_compressed(&mut bytes).unwrap();
    G2 { bytes }
}

/// `(a + b).into_affine()` in G1.
///
/// Trusted: the result is named `g1_sum(a, b)`, which is `g1_sum(b, a)`, the
/// sum of points being symmetric. Every byte string decodes to
/// a point of the subgroup (or, failing, to the identity), decoding gives back
/// what encoding wrote, and G1 is an abelian group; so the sum commutes with
/// every point and adding it equals adding `a` then `b`.
#[verifier::external_body]
pub(crate) fn g1_add(a: &G1, b: &G1) -> (r: G1)
    ensures
        r@ == g1_sum(a@, b@),
        r@ == g1_sum(b@, a@),
        g1_commutes(r@),
        g1_regroups(r@, a@, b@),
{
    let pa = G1Affine::deserialize_compressed(&a.bytes[..]).unwrap_or_default();
    let pb = G1Affine::deserialize_compressed(&b.bytes[..]).unwrap_or_default();
    let mut bytes = Vec::new();
    (pa + pb).into_affine().serialize_compressed(&mut bytes).unwrap();
    G1 { bytes }
}

/// `(p * k).into_affine()` in G1, with `k` read by `Fr::from_le_bytes_mod_order`.
///
/// Trusted: the result is named `g1_scaled(p, k)` for the value of `k` in `Fr`.
/// Every byte string decodes to a point of the subgroup of order `r` (or to
/// the identity), so multiplying the result by `j` in `Fr` is multiplying `p`
/// by `k * j mod r`; and the generator times a `k` that is not zero is not the
/// identity, whose encoding alone carries the infinity flag.
#[verifier::external_body]
pub(crate) fn g1_mul(p: &G1, k: &Scalar) -> (r: G1)
    ensures
        r@ == g1_scaled(p@, scalar_value(k@)),
        forall|j: nat|
            j < fr_modulus() ==> #[trigger] g1_scaled(r@, j) == g1_scaled(
                p@,
                (scalar_value(k@) * j) % fr_modulus(),
            ),
        p@ == g1_generator_bytes() && scalar_value(k@) != 0 ==> r@ != g1_identity_bytes(),
{
    let pp = G1Affine::deserialize_compressed(&p.bytes[..]).unwrap_or_default();
    let kk = Fr::from_le_bytes_mod_order(&k.bytes[..]);
    let mut bytes = Vec::new();
    (pp * kk).into_affine().serialize_compressed(&mut bytes).unwrap();
    G1 { bytes }
}

/// `(a + b).into_affine()` in G2.
///
/// Trusted as `g1_add` is.
#[verifier::external_body]
pub(crate) fn g2_add(a: &G2, b: &G2) -> (r: G2)
    ensures
        r@ == g2_sum(a@, b@),
        r@ == g2_sum(b@, a@),
        g2_commutes(r@),
        g2_regroups(r@, a@, b@),
{
    let pa = G2Affine::deserialize_compressed(&a.bytes[..]).unwrap_or_default();
    let pb = G2Affine::deserialize_compressed(&b.bytes[..]).unwrap_or_default();
    let mut bytes = Vec::new();
    (pa + pb).into_affine().serialize_compressed(&mut bytes).unwrap();
    G2 { bytes }
}

/// `(p * k).into_affine()` in G2.
///
/// Trusted as `g1_mul` is.
#[verifier::external_body]
pub(crate) fn g2_mul(p: &G2, k: &Scalar) -> (r: G2)
    ensures
        r@ == g2_scaled(p@, scalar_value(k@)),
        forall|j: nat|
            j < fr_modulus() ==> #[trigger] g2_scaled(r@, j) == g2_scaled(
                p@,
                (scalar_value(k@) * j) % fr_modulus(),
            ),
        p@ == g2_generator_bytes() && scalar_value(k@) != 0 ==> r@ != g2_identity_bytes(),
{
    let pp = G2Affine::deserialize_compressed(&p.bytes[..]).unwrap_or_default();
    let kk = Fr::from_le_bytes_mod_order(&k.bytes[..]);
    let mut bytes = Vec::new();
    (pp * kk).into_affine().serialize_compressed(&mut bytes).unwrap();
    G2 { bytes }
}

/// `(a - b).into_affine()` in G2.
///
/// Trusted: the result is named `g2_difference(a, b)`.
#[verifier::external_body]
pub(crate) fn g2_sub(a: &G2, b: &G2) -> (r: G2)
    ensures
        r@ == g2_difference(a@, b@),
{
    let pa = G2Affine::deserialize_compressed(&a.bytes[..]).unwrap_or_default();
    let pb = G2Affine::deserialize_compressed(&b.bytes[..]).unwrap_or_default();
    let mut bytes = Vec::new();
    (pa - pb).into_affine().serialize_compressed(&mut bytes).unwrap();
    G2 { bytes }
}

/// `-a` in G2.
///
/// Trusted: the result is named `g2_negated(a)`.
#[verifier::external_body]
pub(crate) fn g2_neg(a: &G2) -> (r: G2)
    ensures
        r@ == g2_negated(a@),
{
    let pa = G2Affine::deserialize_compressed(&a.bytes[..]).unwrap_or_default();
    let mut bytes = Vec::new();
    (-pa).serialize_compressed(&mut bytes).unwrap();
    G2 { bytes }
}

/// `a + &b` on `PairingOutput<Bls12_381>`.
///
/// Trusted: the result is named `gt_sum(a, b)`, which is `gt_sum(b, a)`, GT
/// being abelian. Where `a` and `b` are the
/// products of the pairings of two lists, the sum is the product of the
/// pairings of the two lists joined, so bilinearity gives of it what
/// `pairing_laws` states (the encodings of GT that the wrappers make decode to
/// what was encoded).
#[verifier::external_body]
pub(crate) fn gt_add(a: &Gt, b: &Gt) -> (r: Gt)
    ensures
        r@ == gt_sum(a@, b@),
        r@ == gt_sum(b@, a@),
        forall|a1: Seq<Seq<u8>>, b1: Seq<Seq<u8>>, a2: Seq<Seq<u8>>, b2: Seq<Seq<u8>>|
            a@ == pairing_product(a1, b1) && b@ == pairing_product(a2, b2) && a1.len() == b1.len()
                && a2.len() == b2.len() ==> #[trigger] pairing_laws(r@, a1 + a2, b1 + b2),
{
    let ta = PairingOutput::<Bls12_381>::deserialize_uncompressed(&a.bytes[..]).unwrap_or_default();
    let tb = PairingOutput::<Bls12_381>::deserialize_uncompressed(&b.bytes[..]).unwrap_or_default();
    let mut bytes = Vec::new();
    (ta + &tb).serialize_uncompressed(&mut bytes).unwrap();
    Gt { bytes }
}

/// `is_zero()` on `PairingOutput<Bls12_381>`, that is, whether the element is
/// the identity of GT.
///
/// Trusted: the result is named `gt_is_identity(a)`.
#[verifier::external_body]
pub(crate) fn gt_check_identity(a: &Gt) -> (r: bool)
    ensures
        r == gt_is_identity(a@),
{
    let ta = PairingOutput::<Bls12_381>::deserialize_uncompressed(&a.bytes[..]).unwrap_or_default();
    ta.is_zero()
}

/// `Bls12_381::multi_pairing(a, b)`: the sum in GT of the pairings of
/// `a[i]` with `b[i]`.
///
/// Trusted: the result is named `pairing_product(a, b)`; as the product of
/// the pairings of the pairs that it is, it is the product of the pairings of
/// all pairs but the one at `j` times the pairing of that one; and, the
/// pairing being bilinear, it satisfies `pairing_laws`. Every byte string
/// decodes to a point of its group or to the identity, so the computation has
/// what it needs: the lengths agree by the `requires`, pairs with the identity
/// are left out, and the Miller loop of points of the subgroups is never zero,
/// so the final exponentiation that is unwrapped always succeeds.
#[verifier::external_body]
pub(crate) fn multi_pairing(a: &Vec<G1>, b: &Vec<G2>) -> (r: Gt)
    requires
        a.len() == b.len(),
    ensures
        r@ == pairing_product(g1_views(a@), g2_views(b@)),
        forall|j: int|
            0 <= j < a.len() ==> r@ == gt_sum(
                #[trigger] pairing_product(g1_views(a@).remove(j), g2_views(b@).remove(j)),
                pairing_product(seq![a@[j]@], seq![b@[j]@]),
            ),
        pairing_laws(r@, g1_views(a@), g2_views(b@)),
{
    let pa = a.iter().map(|p| G1Affine::deserialize_compressed(&p.bytes[..]).unwrap_or_default());
    let pb = b.iter().map(|q| G2Affine::deserialize_compressed(&q.bytes[..]).unwrap_or_default());
    let mut bytes = Vec::new();
    Bls12_381::multi_pairing(pa, pb).serialize_uncompressed(&mut bytes).unwrap();
    Gt { bytes }
}

/// `Fr::rand(rng)`, encoded by `serialize_compressed`.
///
/// Nothing is stated of the result: it is drawn from `rng`.
#[verifier::external_body]
pub(crate) fn random_scalar(rng: &mut StdRng) -> (r: Scalar) {
    let mut bytes = Vec::new();
    Fr::rand(rng).serialize_compressed(&mut bytes).unwrap();
    Scalar { bytes }
}

/// `Fr::from(1u64)`, encoded by `serialize_compressed`.
///
/// Trusted: the encoding is that of one, which is 1 in `Fr`.
#[verifier::external_body]
pub(crate) fn scalar_one() -> (r: Scalar)
    ensures
        scalar_value(r@) == 1,
{
    let mut bytes = Vec::new();
    Fr::from(1u64).serialize_compressed(&mut bytes).unwrap();
    Scalar { bytes }
}

/// `is_zero()` on the element of `Fr` that `Fr::from_le_bytes_mod_order`
/// reads from the scalar's bytes.
///
/// Trusted: the element is zero exactly when the value is 0.
#[verifier::external_body]
pub(crate) fn scalar_is_zero(s: &Scalar) -> (r: bool)
    ensures
        r == (scalar_value(s@) == 0),
{
    Fr::from_le_bytes_mod_order(&s.bytes[..]).is_zero()
}

/// The point of G1 that hashing `message` under the domain tag `dst` gives.
pub uninterp spec fn hashed_to_g1(dst: Seq<u8>, message: Seq<u8>) -> Seq<u8>;

/// Hashes `message` to G1 with `MapToCurveBasedHasher` over
/// `DefaultFieldHasher<Sha256, 128>` and `WBMap<g1::Config>`, under the domain
/// tag `dst`.
///
/// Trusted: the point is named `hashed_to_g1(dst, message)`, a function of
/// the tag and the message alone; and hashing succeeds, as the source of this
/// version shows: `new` checks nothing outside the crate's own tests, and both
/// the SWU map and the isogeny map of `WBMap` always return `Ok`.
#[verifier::external_body]
pub(crate) fn hash_message(dst: &[u8], message: &[u8]) -> (r: Result<G1, ark_ec::hashing::HashToCurveError>)
    ensures
        match r {
            Ok(p) => p@ == hashed_to_g1(dst@, message@),
            Err(_) => false,
        },
{
    let hasher = MapToCurveBasedHasher::<G1Projective, DefaultFieldHasher<Sha256, 128>, WBMap<G1Config>>::new(dst)?;
    let mut bytes = Vec::new();
    hasher.hash(message)?.serialize_compressed(&mut bytes).unwrap();
    Ok(G1 { bytes })
}

} // verus!
