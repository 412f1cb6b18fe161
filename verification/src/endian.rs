//! Byte-order conversions of 16- and 32-bit integers, over the byte order of
//! the host (vstd's `endianness()`).
use vstd::prelude::*;

verus! {

/// True when the host stores integers most significant byte first.
pub open spec fn host_is_big_endian() -> bool {
    vstd::endian::endianness() == vstd::endian::Endian::Big
}

/// `x` with its two bytes exchanged.
pub open spec fn swap_bytes16(x: u16) -> u16 {
    ((x & 0xff) << 8) | (x >> 8)
}

/// `x` with the order of its four bytes reversed.
pub open spec fn swap_bytes32(x: u32) -> u32 {
    ((x & 0xff) << 24) | (((x >> 8) & 0xff) << 16) | (((x >> 16) & 0xff) << 8) | (x >> 24)
}

/// What `u16::to_be` and `u16::from_be` give: `x` itself on a big-endian host,
/// `x` with its bytes swapped on a little-endian one.
pub open spec fn be16_of_host(x: u16) -> u16 {
    if host_is_big_endian() {
        x
    } else {
        swap_bytes16(x)
    }
}

/// What `u32::to_be` and `u32::from_be` give.
pub open spec fn be32_of_host(x: u32) -> u32 {
    if host_is_big_endian() {
        x
    } else {
        swap_bytes32(x)
    }
}

/// The two bytes of `x`, most significant first.
pub open spec fn bytes16_be(x: u16) -> Seq<u8> {
    seq![(x >> 8) as u8, (x & 0xff) as u8]
}

/// The two bytes of `x`, least significant first.
pub open spec fn bytes16_le(x: u16) -> Seq<u8> {
    seq![(x & 0xff) as u8, (x >> 8) as u8]
}

/// The two bytes of `x` in the order the host stores them.
pub open spec fn bytes16_ne(x: u16) -> Seq<u8> {
    if host_is_big_endian() {
        bytes16_be(x)
    } else {
        bytes16_le(x)
    }
}

/// The four bytes of `x`, most significant first.
pub open spec fn bytes32_be(x: u32) -> Seq<u8> {
    seq![(x >> 24) as u8, ((x >> 16) & 0xff) as u8, ((x >> 8) & 0xff) as u8, (x & 0xff) as u8]
}

/// The four bytes of `x`, least significant first.
pub open spec fn bytes32_le(x: u32) -> Seq<u8> {
    seq![(x & 0xff) as u8, ((x >> 8) & 0xff) as u8, ((x >> 16) & 0xff) as u8, (x >> 24) as u8]
}

/// The four bytes of `x` in the order the host stores them.
pub open spec fn bytes32_ne(x: u32) -> Seq<u8> {
    if host_is_big_endian() {
        bytes32_be(x)
    } else {
        bytes32_le(x)
    }
}

/// The 32-bit integer whose bytes, most significant first, are `o`.
pub open spec fn u32_of_be_bytes(o: [u8; 4]) -> u32 {
    ((o[0] as u32) << 24) | ((o[1] as u32) << 16) | ((o[2] as u32) << 8) | (o[3] as u32)
}

/// `u16::to_be`: on a big-endian host the value itself, on a little-endian host
/// the value with its bytes swapped (as std documents it).
#[verifier::external_body]
pub(crate) fn u16_to_be(x: u16) -> (r: u16)
    ensures
        r == be16_of_host(x),
{
    x.to_be()
}

/// `u32::to_be`: on a big-endian host the value itself, on a little-endian host
/// the value with its bytes reversed (as std documents it).
#[verifier::external_body]
pub(crate) fn u32_to_be(x: u32) -> (r: u32)
    ensures
        r == be32_of_host(x),
{
    x.to_be()
}

/// `u32::from_be`: on a big-endian host the value itself, on a little-endian
/// host the value with its bytes reversed (as std documents it).
#[verifier::external_body]
pub(crate) fn u32_from_be(x: u32) -> (r: u32)
    ensures
        r == be32_of_host(x),
{
    u32::from_be(x)
}

/// `u16::to_ne_bytes`: the memory representation of `x` in the host's byte order.
#[verifier::external_body]
pub(crate) fn u16_to_ne_bytes(x: u16) -> (r: [u8; 2])
    ensures
        r@ == bytes16_ne(x),
{
    x.to_ne_bytes()
}

/// `u32::to_ne_bytes`: the memory representation of `x` in the host's byte order.
#[verifier::external_body]
pub(crate) fn u32_to_ne_bytes(x: u32) -> (r: [u8; 4])
    ensures
        r@ == bytes32_ne(x),
{
    x.to_ne_bytes()
}

/// Converting to network order and back gives the value back, on any host.
pub proof fn lemma_be16_roundtrip(x: u16)
    ensures
        be16_of_host(be16_of_host(x)) == x,
{
    assert(swap_bytes16(swap_bytes16(x)) == x) by (bit_vector);
}

/// Converting to network order and back gives the value back, on any host.
pub proof fn lemma_be32_roundtrip(x: u32)
    ensures
        be32_of_host(be32_of_host(x)) == x,
{
    let s = swap_bytes32(x);
    let t = swap_bytes32(s);
    assert(t == x) by (bit_vector)
        requires
            s == ((x & 0xff) << 24) | (((x >> 8) & 0xff) << 16) | (((x >> 16) & 0xff) << 8) | (x >> 24),
            t == ((s & 0xff) << 24) | (((s >> 8) & 0xff) << 16) | (((s >> 16) & 0xff) << 8) | (s >> 24),
    ;
}

/// A value converted to network order is stored most significant byte first,
/// on any host.
pub proof fn lemma_be16_in_memory(x: u16)
    ensures
        bytes16_ne(be16_of_host(x)) == bytes16_be(x),
{
    let s = swap_bytes16(x);
    assert((s & 0xff) as u8 == (x >> 8) as u8 && (s >> 8) as u8 == (x & 0xff) as u8) by (bit_vector)
        requires
            s == ((x & 0xff) << 8) | (x >> 8),
    ;
}

/// A value converted to network order is stored most significant byte first,
/// on any host.
pub proof fn lemma_be32_in_memory(x: u32)
    ensures
        bytes32_ne(be32_of_host(x)) == bytes32_be(x),
{
    let s = swap_bytes32(x);
    assert((s & 0xff) as u8 == (x >> 24) as u8 && ((s >> 8) & 0xff) as u8 == ((x >> 16) & 0xff) as u8
        && ((s >> 16) & 0xff) as u8 == ((x >> 8) & 0xff) as u8 && (s >> 24) as u8 == (x & 0xff) as u8)
        by (bit_vector)
        requires
            s == ((x & 0xff) << 24) | (((x >> 8) & 0xff) << 16) | (((x >> 16) & 0xff) << 8) | (x >> 24),
    ;
}

/// Reading four bytes most significant first and writing the value back the same
/// way gives the bytes back.
pub proof fn lemma_be_bytes32_roundtrip(o: [u8; 4])
    ensures
        bytes32_be(u32_of_be_bytes(o)) =~= o@,
{
    let x = u32_of_be_bytes(o);
    let (a, b, c, d) = (o[0], o[1], o[2], o[3]);
    assert((x >> 24) as u8 == a && ((x >> 16) & 0xff) as u8 == b && ((x >> 8) & 0xff) as u8 == c
        && (x & 0xff) as u8 == d) by (bit_vector)
        requires
            x == ((a as u32) << 24) | ((b as u32) << 16) | ((c as u32) << 8) | (d as u32),
    ;
}

} // verus!
