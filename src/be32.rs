use vstd::prelude::*;
use byteorder::{BigEndian, ByteOrder};

verus! {

/// The four big-endian bytes of `n`.
pub open spec fn be32_bytes(n: u32) -> Seq<u8> {
    seq![(n >> 24u32) as u8, (n >> 16u32) as u8, (n >> 8u32) as u8, n as u8]
}

/// The number whose big-endian bytes are the first four of `b`.
pub open spec fn be32_value(b: Seq<u8>) -> u32
    recommends
        b.len() >= 4,
{
    ((b[0] as u32) << 24u32) | ((b[1] as u32) << 16u32) | ((b[2] as u32) << 8u32) | (b[3] as u32)
}

/// Reading back the bytes written for `n` gives `n`.
pub proof fn lemma_be32_round_trip(n: u32)
    ensures
        be32_value(be32_bytes(n)) == n,
{
    let b0 = (n >> 24u32) as u8;
    let b1 = (n >> 16u32) as u8;
    let b2 = (n >> 8u32) as u8;
    let b3 = n as u8;
    assert(((b0 as u32) << 24u32) | ((b1 as u32) << 16u32) | ((b2 as u32) << 8u32) | (b3 as u32)
        == n) by (bit_vector)
        requires
            b0 == (n >> 24u32) as u8,
            b1 == (n >> 16u32) as u8,
            b2 == (n >> 8u32) as u8,
            b3 == n as u8,
    ;
}

/// Writing out the number read from four bytes gives back those bytes.
pub proof fn lemma_be32_bytes_of_value(b: Seq<u8>)
    requires
        b.len() >= 4,
    ensures
        be32_bytes(be32_value(b)) == b.subrange(0, 4),
{
    let (b0, b1, b2, b3) = (b[0], b[1], b[2], b[3]);
    let n = be32_value(b);
    assert((n >> 24u32) as u8 == b0 && (n >> 16u32) as u8 == b1 && (n >> 8u32) as u8 == b2
        && n as u8 == b3) by (bit_vector)
        requires
            n == ((b0 as u32) << 24u32) | ((b1 as u32) << 16u32) | ((b2 as u32) << 8u32) | (
            b3 as u32),
    ;
    assert(be32_bytes(n) =~= b.subrange(0, 4));
}

/// Relies on byteorder's `BigEndian::write_u32`: it stores `n` most significant byte first.
#[verifier::external_body]
pub(crate) fn write_be32(n: u32) -> (r: [u8; 4])
    ensures
        r@ == be32_bytes(n),
{
    let mut buf = [0u8; 4];
    BigEndian::write_u32(&mut buf, n);
    buf
}

/// Relies on byteorder's `BigEndian::read_u32`: it reads the first four bytes, most
/// significant first, and panics on fewer.
#[verifier::external_body]
pub(crate) fn read_be32(b: &[u8]) -> (r: u32)
    requires
        b@.len() >= 4,
    ensures
        r == be32_value(b@),
{
    BigEndian::read_u32(b)
}

} // verus!
