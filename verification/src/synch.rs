//! Synchronized (synchsafe) integers and plain big-endian integers.
//!
//! ID3v2.4 stores sizes as four big-endian bytes carrying seven data bits
//! each, with every top bit zero, so that a size field can never contain the
//! 0xFF byte of an MPEG frame sync. ID3v2.3 frame sizes are plain four-byte
//! big-endian integers.

use vstd::prelude::*;

verus! {

/// Largest value a four-byte synchsafe integer can carry (28 data bits).
pub const SYNCHSAFE_MAX: u32 = 0x0FFF_FFFF;

/// The value of four synchsafe bytes: seven data bits per byte, big-endian.
pub open spec fn synchsafe_value(b0: u8, b1: u8, b2: u8, b3: u8) -> u32 {
    (((b0 & 0x7f) as u32) << 21) | (((b1 & 0x7f) as u32) << 14) | (((b2 & 0x7f) as u32) << 7) | (
    (b3 & 0x7f) as u32)
}

/// The four synchsafe bytes that encode `n` (meaningful for `n <= SYNCHSAFE_MAX`).
pub open spec fn synchsafe_bytes(n: u32) -> Seq<u8> {
    seq![
        ((n >> 21) & 0x7f) as u8,
        ((n >> 14) & 0x7f) as u8,
        ((n >> 7) & 0x7f) as u8,
        (n & 0x7f) as u8,
    ]
}

/// Every byte of a synchsafe encoding has its top bit clear.
pub proof fn lemma_synchsafe_bytes_in_range(n: u32)
    ensures
        forall|i: int| 0 <= i < 4 ==> synchsafe_bytes(n)[i] < 0x80,
{
    assert(((n >> 21) & 0x7f) < 0x80 && ((n >> 14) & 0x7f) < 0x80 && ((n >> 7) & 0x7f) < 0x80 && (n
        & 0x7f) < 0x80) by (bit_vector);
}

/// Decoding the synchsafe encoding of any value up to `SYNCHSAFE_MAX` gives
/// that value back.
pub proof fn lemma_synchsafe_roundtrip(n: u32)
    requires
        n <= SYNCHSAFE_MAX,
    ensures
        synchsafe_value(
            synchsafe_bytes(n)[0],
            synchsafe_bytes(n)[1],
            synchsafe_bytes(n)[2],
            synchsafe_bytes(n)[3],
        ) == n,
{
    let b0 = ((n >> 21) & 0x7f) as u8;
    let b1 = ((n >> 14) & 0x7f) as u8;
    let b2 = ((n >> 7) & 0x7f) as u8;
    let b3 = (n & 0x7f) as u8;
    assert((((b0 & 0x7f) as u32) << 21) | (((b1 & 0x7f) as u32) << 14) | (((b2 & 0x7f) as u32) << 7)
        | ((b3 & 0x7f) as u32) == n) by (bit_vector)
        requires
            n <= 0x0FFF_FFFF,
            b0 == ((n >> 21) & 0x7f) as u8,
            b1 == ((n >> 14) & 0x7f) as u8,
            b2 == ((n >> 7) & 0x7f) as u8,
            b3 == (n & 0x7f) as u8,
    ;
}

/// Reads a four-byte synchsafe integer.
pub fn decode_synchsafe(b0: u8, b1: u8, b2: u8, b3: u8) -> (n: u32)
    ensures
        n == synchsafe_value(b0, b1, b2, b3),
        n <= SYNCHSAFE_MAX,
{
    proof {
        assert(((((b0 & 0x7f) as u32) << 21) | (((b1 & 0x7f) as u32) << 14) | (((b2 & 0x7f)
            as u32) << 7) | ((b3 & 0x7f) as u32)) <= 0x0FFF_FFFF) by (bit_vector);
    }
    (((b0 & 0x7f) as u32) << 21) | (((b1 & 0x7f) as u32) << 14) | (((b2 & 0x7f) as u32) << 7) | ((b3
        & 0x7f) as u32)
}

/// Writes `n` as a four-byte synchsafe integer.
pub fn encode_synchsafe(n: u32) -> (r: [u8; 4])
    requires
        n <= SYNCHSAFE_MAX,
    ensures
        r@ == synchsafe_bytes(n),
{
    let r = [((n >> 21) & 0x7f) as u8, ((n >> 14) & 0x7f) as u8, ((n >> 7) & 0x7f) as u8, (n
        & 0x7f) as u8];
    proof {
        assert(r@ =~= synchsafe_bytes(n));
    }
    r
}

/// The value of four bytes as a plain big-endian integer (ID3v2.3 sizes).
pub open spec fn be32_value(b0: u8, b1: u8, b2: u8, b3: u8) -> u32 {
    ((b0 as u32) << 24) | ((b1 as u32) << 16) | ((b2 as u32) << 8) | (b3 as u32)
}

/// Reads a four-byte plain big-endian integer.
pub fn decode_be32(b0: u8, b1: u8, b2: u8, b3: u8) -> (n: u32)
    ensures
        n == be32_value(b0, b1, b2, b3),
{
    ((b0 as u32) << 24) | ((b1 as u32) << 16) | ((b2 as u32) << 8) | (b3 as u32)
}

} // verus!
