use vstd::prelude::*;

verus! {

/// `2^63`, the largest power of two that a `u64` holds.
pub const P: u64 = 1u64 << 63;

/// The order `r` of the groups G1, G2 and GT of BLS12-381, which is also the
/// modulus of the scalar field `Fr`.
pub open spec fn fr_modulus() -> nat {
    52435875175126190479447740508185965837690552500527637822603658699938581184513nat
}

/// The x-coordinate of the fixed generator of G1.
pub open spec fn g1_generator_x() -> nat {
    3685416753713387016781088315183077757961620795782546409894578378688607592378376318836054947676345821548104185464507nat
}

/// The x-coordinate of the fixed generator of G2, an element `c0 + c1 * u` of
/// the quadratic extension field.
pub open spec fn g2_generator_x_c0() -> nat {
    352701069587466618187139116011060144890029952792775240219908644239793785735715026873347600343865175952761926303160nat
}

pub open spec fn g2_generator_x_c1() -> nat {
    3059144344244213709971259814753781636986470325476647558659373206291635324768958432433509563104347017837885763365758nat
}

/// The `len` lowest bytes of `n`, most significant first.
pub open spec fn be_bytes(n: nat, len: nat) -> Seq<u8>
    decreases len,
{
    if len == 0 {
        Seq::empty()
    } else {
        be_bytes(n / 256, (len - 1) as nat).push((n % 256) as u8)
    }
}

/// The integer whose little-endian bytes are `b`.
pub open spec fn le_nat(b: Seq<u8>) -> nat
    decreases b.len(),
{
    if b.len() == 0 {
        0
    } else {
        b[0] as nat + 256 * le_nat(b.drop_first())
    }
}

/// The element of `Fr` that the little-endian bytes `b` stand for.
pub open spec fn scalar_value(b: Seq<u8>) -> nat {
    le_nat(b) % fr_modulus()
}

/// `b` with the compression flag (bit 7 of the first byte) set.
pub open spec fn with_compression_flag(b: Seq<u8>) -> Seq<u8> {
    b.update(0, b[0] | 0x80u8)
}

/// Compressed encoding of the point at infinity of G1: the compression and
/// infinity flags (bits 7 and 6 of the first byte) over 48 zero bytes.
pub open spec fn g1_identity_bytes() -> Seq<u8> {
    seq![0xc0u8] + Seq::new(47, |i: int| 0u8)
}

/// Compressed encoding of the point at infinity of G2.
pub open spec fn g2_identity_bytes() -> Seq<u8> {
    seq![0xc0u8] + Seq::new(95, |i: int| 0u8)
}

/// Compressed encoding of the generator of G1: `x` in 48 big-endian bytes,
/// flagged as compressed; its sign flag is clear.
pub open spec fn g1_generator_bytes() -> Seq<u8> {
    with_compression_flag(be_bytes(g1_generator_x(), 48))
}

/// Compressed encoding of the generator of G2: `x.c1` then `x.c0`, 48
/// big-endian bytes each, flagged as compressed; its sign flag is clear.
pub open spec fn g2_generator_bytes() -> Seq<u8> {
    with_compression_flag(be_bytes(g2_generator_x_c1(), 48) + be_bytes(g2_generator_x_c0(), 48))
}

} // verus!
