use ark_ec::hashing::curve_maps::wb::WBMap;
use ark_ec::hashing::map_to_curve_hasher::MapToCurveBasedHasher;
use ark_ec::hashing::HashToCurve;
use ark_ec::{AffineRepr, CurveGroup};
use ark_ff::field_hashers::DefaultFieldHasher;
use ark_ff::{UniformRand, Zero};
use ark_serialize::CanonicalSerialize;
use ark_std::rand::rngs::StdRng;
use ark_std::rand::SeedableRng;
use lvacs::keys::derive_verify_key;
use lvacs::verify::verify_aggregate;
use lvacs::{
    aggregate_concealed_signatures, convert, csetup, key_gen, local_aggregate_opening,
    open_concealed_signature, sign, verify, ConcealedSignature, Scheme, VerifyKey,
};

fn seeded_rng(seed_byte: u8) -> StdRng {
    let mut seed = [0u8; 32];
    seed[0] = seed_byte;
    seed[5] = 17;
    StdRng::from_seed(seed)
}

/// The `len` big-endian bytes of the decimal number `digits`.
fn decimal_to_be_bytes(digits: &str, len: usize) -> Vec<u8> {
    let mut out = vec![0u8; len];
    for d in digits.bytes() {
        let mut carry = (d - b'0') as u32;
        for byte in out.iter_mut().rev() {
            let v = (*byte as u32) * 10 + carry;
            *byte = (v & 0xff) as u8;
            carry = v >> 8;
        }
        assert_eq!(carry, 0);
    }
    out
}

const G1_X: &str = "3685416753713387016781088315183077757961620795782546409894578378688607592378376318836054947676345821548104185464507";
const G2_X_C0: &str = "352701069587466618187139116011060144890029952792775240219908644239793785735715026873347600343865175952761926303160";
const G2_X_C1: &str = "3059144344244213709971259814753781636986470325476647558659373206291635324768958432433509563104347017837885763365758";

/// The compressed encoding of the generator of G1: `x`, with the
/// compression flag set.
fn g1_generator_encoding() -> Vec<u8> {
    let mut v = decimal_to_be_bytes(G1_X, 48);
    v[0] |= 0x80;
    v
}

fn signers(
    rng: &mut StdRng,
    scheme: &Scheme,
    messages: &[&[u8]],
) -> (Vec<VerifyKey>, Vec<ConcealedSignature>) {
    let mut keys = Vec::new();
    let mut sigs = Vec::new();
    for message in messages {
        let (vk, sk) = key_gen(rng);
        let signature = sign(&sk, message).expect("hashing should succeed");
        let (cs, _) = scheme.convert(&vk, message, &signature, rng).expect("hashing should succeed");
        keys.push(vk);
        sigs.push(cs);
    }
    (keys, sigs)
}

#[test]
fn g1_generator_encoding_matches_its_coordinates() {
    let mut bytes = Vec::new();
    ark_bls12_381::G1Affine::generator().serialize_compressed(&mut bytes).unwrap();
    assert_eq!(bytes, g1_generator_encoding());
    assert_eq!(&bytes[..4], &[0x97, 0xf1, 0xd3, 0xa7]);
}

#[test]
fn g2_generator_encoding_matches_its_coordinates() {
    let mut expected = decimal_to_be_bytes(G2_X_C1, 48);
    expected.extend(decimal_to_be_bytes(G2_X_C0, 48));
    expected[0] |= 0x80;
    let mut bytes = Vec::new();
    ark_bls12_381::G2Affine::generator().serialize_compressed(&mut bytes).unwrap();
    assert_eq!(bytes, expected);
    assert_eq!(&bytes[..4], &[0x93, 0xe0, 0x2b, 0x60]);
}

#[test]
fn identity_encodings_are_the_infinity_flag_over_zeros() {
    let mut g1 = Vec::new();
    ark_bls12_381::G1Affine::zero().serialize_compressed(&mut g1).unwrap();
    let mut expected = vec![0u8; 48];
    expected[0] = 0xc0;
    assert_eq!(g1, expected);

    let mut g2 = Vec::new();
    ark_bls12_381::G2Affine::zero().serialize_compressed(&mut g2).unwrap();
    let mut expected = vec![0u8; 96];
    expected[0] = 0xc0;
    assert_eq!(g2, expected);
}

#[test]
fn setup_uses_the_generator_and_fresh_secrets() {
    let mut rng = seeded_rng(3);
    let first = csetup(&mut rng);
    let second = csetup(&mut rng);
    assert_eq!(first.v.v2.to_bytes(), g1_generator_encoding());
    assert_eq!(second.v.v2.to_bytes(), g1_generator_encoding());
    assert_ne!(first.v.v1, first.v.v2);
    assert_ne!(first.v.v1, second.v.v1);
    assert_ne!(first.w.w1, first.w.w2);
}

#[test]
fn key_pair_is_generator_times_secret() {
    let mut rng = seeded_rng(4);
    let (vk, sk) = key_gen(&mut rng);
    let (other_vk, _) = key_gen(&mut rng);
    assert_eq!(derive_verify_key(&sk), vk);
    assert_ne!(vk, other_vk);
}

#[test]
fn signatures_depend_on_key_and_message() {
    let mut rng = seeded_rng(5);
    let (vk, sk) = key_gen(&mut rng);
    let (_, other_sk) = key_gen(&mut rng);
    let a = sign(&sk, b"message a").expect("hashing should succeed");
    let b = sign(&sk, b"message b").expect("hashing should succeed");
    let c = sign(&other_sk, b"message a").expect("hashing should succeed");
    assert_ne!(a, b);
    assert_ne!(a, c);
    assert!(verify(&vk, b"message a", &a).expect("hashing should succeed"));
    assert!(verify(&vk, b"message b", &b).expect("hashing should succeed"));
    assert!(!verify(&vk, b"message a", &c).expect("hashing should succeed"));
}

#[test]
fn open_accepts_every_conversion_and_rejects_another_opening() {
    let mut rng = seeded_rng(6);
    let params = csetup(&mut rng);
    let (vk, sk) = key_gen(&mut rng);
    let message = b"open after convert";
    let signature = sign(&sk, message).expect("hashing should succeed");
    let (cs1, aux1) = convert(&params, &vk, message, &signature, &mut rng).expect("hashing should succeed");
    let (cs2, aux2) = convert(&params, &vk, message, &signature, &mut rng).expect("hashing should succeed");
    assert_ne!(cs1, cs2);
    assert!(open_concealed_signature(message, &cs1, &aux1, &params).expect("hashing should succeed"));
    assert!(open_concealed_signature(message, &cs2, &aux2, &params).expect("hashing should succeed"));
    assert!(!open_concealed_signature(message, &cs1, &aux2, &params).expect("hashing should succeed"));
}

#[test]
fn aggregate_is_each_signature_plus_its_local_opening() {
    let mut rng = seeded_rng(7);
    let scheme = Scheme::new(&mut rng);
    let messages: &[&[u8]] = &[b"one", b"two", b"three", b"four"];
    let (keys, sigs) = signers(&mut rng, &scheme, messages);
    let agg = aggregate_concealed_signatures(&keys, &sigs);
    for j in 0..sigs.len() {
        let lop = local_aggregate_opening(&agg, &keys, &sigs, j);
        assert_ne!(lop.signature_commitment, agg.signature_commitment);
        assert_eq!(
            sigs[j].signature_commitment.clone().add(lop.signature_commitment.clone()),
            agg.signature_commitment
        );
        assert_eq!(
            sigs[j].message_commitment.clone().add(lop.message_commitment.clone()),
            agg.message_commitment
        );
        assert_eq!(sigs[j].proof.clone().add(lop.proof.clone()), agg.proof);
        assert!(scheme.local_verify(&keys[j], &agg, &lop, &sigs[j]));
    }
    assert!(scheme.verify_aggregate(&keys, &agg));
}

#[test]
fn local_opening_of_a_single_signer_is_the_identity() {
    let mut rng = seeded_rng(8);
    let scheme = Scheme::new(&mut rng);
    let (keys, sigs) = signers(&mut rng, &scheme, &[b"alone"]);
    let agg = scheme.aggregate_concealed_signatures(&keys, &sigs);
    let lop = scheme.local_aggregate_opening(&agg, &keys, &sigs, 0);
    let mut identity = vec![0u8; 48];
    identity[0] = 0xc0;
    assert_eq!(lop.signature_commitment.c1.to_bytes(), identity);
    assert_eq!(lop.message_commitment.c2.to_bytes(), identity);
    let mut identity2 = vec![0u8; 96];
    identity2[0] = 0xc0;
    assert_eq!(lop.proof.z1.to_bytes(), identity2);
    assert!(scheme.local_verify(&keys[0], &agg, &lop, &sigs[0]));
}

#[test]
fn aggregate_verification_rejects_other_key_lists() {
    let mut rng = seeded_rng(9);
    let scheme = Scheme::new(&mut rng);
    let (keys, sigs) = signers(&mut rng, &scheme, &[b"first", b"second"]);
    let agg = scheme.aggregate_concealed_signatures(&keys, &sigs);
    let params = csetup(&mut seeded_rng(9));
    assert!(scheme.verify_aggregate(&keys, &agg));
    assert!(!scheme.verify_aggregate(&keys[..1], &agg));
    assert!(!scheme.verify_aggregate(&keys[1..], &agg));
    assert!(scheme.verify_aggregate(&[keys[1].clone(), keys[0].clone()], &agg));
    assert!(verify_aggregate(&keys, &agg, &params));
    assert!(!verify_aggregate(&keys, &agg, &csetup(&mut seeded_rng(11))));
}

#[test]
fn scalar_one_encodes_as_one() {
    let mut bytes = Vec::new();
    ark_bls12_381::Fr::from(1u64).serialize_compressed(&mut bytes).unwrap();
    let mut expected = vec![0u8; 32];
    expected[0] = 1;
    assert_eq!(bytes, expected);
}

#[test]
fn keys_and_signatures_match_the_curve_arithmetic() {
    // The key that key_gen draws from the same generator.
    let mut draw = seeded_rng(10);
    let mut x = ark_bls12_381::Fr::rand(&mut draw);
    while x.is_zero() {
        x = ark_bls12_381::Fr::rand(&mut draw);
    }
    let (vk, sk) = key_gen(&mut seeded_rng(10));

    let mut expected_vk = Vec::new();
    (ark_bls12_381::G2Affine::generator() * x)
        .into_affine()
        .serialize_compressed(&mut expected_vk)
        .unwrap();
    assert_eq!(vk.value.to_bytes(), expected_vk);

    let message = b"exact signature";
    let hasher = MapToCurveBasedHasher::<
        ark_bls12_381::G1Projective,
        DefaultFieldHasher<sha2::Sha256, 128>,
        WBMap<ark_bls12_381::g1::Config>,
    >::new(b"BLS_SIG_BLS12381G1_XMD:SHA-256_SSWU_RO_NUL_")
    .unwrap();
    let h = hasher.hash(message).unwrap();
    let mut expected_sig = Vec::new();
    (h * x).into_affine().serialize_compressed(&mut expected_sig).unwrap();
    let signature = sign(&sk, message).expect("hashing should succeed");
    assert_eq!(signature.value.to_bytes(), expected_sig);
}

#[test]
fn setup_w1_is_generator_times_a_times_b() {
    let mut draw = seeded_rng(12);
    let mut a = ark_bls12_381::Fr::rand(&mut draw);
    while a.is_zero() {
        a = ark_bls12_381::Fr::rand(&mut draw);
    }
    let b = ark_bls12_381::Fr::rand(&mut draw);
    let params = csetup(&mut seeded_rng(12));

    let mut expected_w1 = Vec::new();
    (ark_bls12_381::G1Affine::generator() * (a * b))
        .into_affine()
        .serialize_compressed(&mut expected_w1)
        .unwrap();
    assert_eq!(params.w.w1.to_bytes(), expected_w1);

    let mut identity = vec![0u8; 48];
    identity[0] = 0xc0;
    assert_ne!(params.v.v1.to_bytes(), identity);
}

#[test]
fn verification_keys_are_not_the_identity() {
    let mut rng = seeded_rng(13);
    let mut identity = vec![0u8; 96];
    identity[0] = 0xc0;
    for _ in 0..4 {
        let (vk, _) = key_gen(&mut rng);
        assert_ne!(vk.value.to_bytes(), identity);
    }
}

#[test]
fn conversion_is_accepted_exactly_when_the_signature_verifies() {
    let mut rng = seeded_rng(14);
    let scheme = Scheme::new(&mut rng);
    let (vk, sk) = key_gen(&mut rng);
    let (_, other_sk) = key_gen(&mut rng);
    let message = b"conversion law";
    let good = sign(&sk, message).expect("hashing should succeed");
    let bad = sign(&other_sk, message).expect("hashing should succeed");
    let (good_cs, _) = scheme.convert(&vk, message, &good, &mut rng).expect("hashing should succeed");
    let (bad_cs, _) = scheme.convert(&vk, message, &bad, &mut rng).expect("hashing should succeed");
    assert_eq!(
        scheme.verify_concealed(&good_cs, &vk),
        verify(&vk, message, &good).expect("hashing should succeed")
    );
    assert_eq!(
        scheme.verify_concealed(&bad_cs, &vk),
        verify(&vk, message, &bad).expect("hashing should succeed")
    );
    assert!(scheme.verify_concealed(&good_cs, &vk));
    assert!(!scheme.verify_concealed(&bad_cs, &vk));
}

#[test]
fn one_member_aggregate_verifies_as_its_member() {
    let mut rng = seeded_rng(15);
    let scheme = Scheme::new(&mut rng);
    let (vk, sk) = key_gen(&mut rng);
    let (_, other_sk) = key_gen(&mut rng);
    let message = b"alone in the aggregate";
    for key in [&sk, &other_sk] {
        let signature = sign(key, message).expect("hashing should succeed");
        let (cs, _) = scheme.convert(&vk, message, &signature, &mut rng).expect("hashing should succeed");
        let agg = scheme.aggregate_concealed_signatures(std::slice::from_ref(&vk), std::slice::from_ref(&cs));
        assert_eq!(
            scheme.verify_aggregate(std::slice::from_ref(&vk), &agg),
            scheme.verify_concealed(&cs, &vk)
        );
    }
}

#[test]
fn every_honest_local_opening_verifies() {
    let mut rng = seeded_rng(16);
    let scheme = Scheme::new(&mut rng);
    let (keys, sigs) = signers(&mut rng, &scheme, &[b"a", b"b", b"c"]);
    let agg = scheme.aggregate_concealed_signatures(&keys, &sigs);
    assert!(scheme.verify_aggregate(&keys, &agg));
    for j in 0..keys.len() {
        let lop = scheme.local_aggregate_opening(&agg, &keys, &sigs, j);
        assert!(scheme.local_verify(&keys[j], &agg, &lop, &sigs[j]));
        let other = (j + 1) % keys.len();
        assert!(!scheme.local_verify(&keys[other], &agg, &lop, &sigs[j]));
    }
}
