//! Big-endian (network byte order) encoding and decoding of u16 and u32.

use vstd::prelude::*;

verus! {

/// The value of two bytes read big-endian.
pub open spec fn be_u16(b0: u8, b1: u8) -> int {
    256 * (b0 as int) + (b1 as int)
}

/// The value of four bytes read big-endian.
pub open spec fn be_u32(b0: u8, b1: u8, b2: u8, b3: u8) -> int {
    65536 * be_u16(b0, b1) + be_u16(b2, b3)
}

/// The two-byte big-endian encoding of a u16.
pub open spec fn be_u16_bytes(num: u16) -> Seq<u8> {
    seq![(num / 256) as u8, (num % 256) as u8]
}

/// The four-byte big-endian encoding of a u32.
pub open spec fn be_u32_bytes(num: u32) -> Seq<u8> {
    be_u16_bytes((num / 65536) as u16) + be_u16_bytes((num % 65536) as u16)
}

/// Parse the first two bytes of the slice as a big-endian u16.
pub fn to_u16(bytes: &[u8]) -> (r: u16)
    requires
        bytes@.len() >= 2,
    ensures
        r == be_u16(bytes@[0], bytes@[1]),
{
    (bytes[0] as u16) * 256 + (bytes[1] as u16)
}

/// Parse the first four bytes of the slice as a big-endian u32.
pub fn to_u32(bytes: &[u8]) -> (r: u32)
    requires
        bytes@.len() >= 4,
    ensures
        r == be_u32(bytes@[0], bytes@[1], bytes@[2], bytes@[3]),
{
    (bytes[0] as u32) * 16777216 + (bytes[1] as u32) * 65536 + (bytes[2] as u32) * 256 + (
    bytes[3] as u32)
}

/// Write a u16 as two big-endian bytes.
pub fn from_u16(num: u16) -> (r: [u8; 2])
    ensures
        r@ == be_u16_bytes(num),
        be_u16(r@[0], r@[1]) == num,
{
    let r = [(num / 256) as u8, (num % 256) as u8];
    proof {
        assert(r@ =~= be_u16_bytes(num));
    }
    r
}

/// Write a u32 as four big-endian bytes.
pub fn from_u32(num: u32) -> (r: [u8; 4])
    ensures
        r@ == be_u32_bytes(num),
        be_u32(r@[0], r@[1], r@[2], r@[3]) == num,
{
    let hi = num / 65536;
    let lo = num % 65536;
    let r = [(hi / 256) as u8, (hi % 256) as u8, (lo / 256) as u8, (lo % 256) as u8];
    proof {
        assert(r@ =~= be_u32_bytes(num));
    }
    r
}

/// Reading back the two bytes written for a u16 yields the same value.
pub proof fn lemma_u16_round_trip(num: u16)
    ensures
        be_u16(be_u16_bytes(num)[0], be_u16_bytes(num)[1]) == num,
{
}

/// Reading back the four bytes written for a u32 yields the same value.
pub proof fn lemma_u32_round_trip(num: u32)
    ensures
        be_u32(
            be_u32_bytes(num)[0],
            be_u32_bytes(num)[1],
            be_u32_bytes(num)[2],
            be_u32_bytes(num)[3],
        ) == num,
{
}

} // verus!
