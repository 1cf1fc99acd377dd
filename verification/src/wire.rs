//! Integers on the wire: big-endian, most significant byte first.
use vstd::prelude::*;

verus! {

/// The two bytes of `n`.
pub open spec fn be16(n: u16) -> Seq<u8> {
    seq![(n / 256) as u8, (n % 256) as u8]
}

/// The four bytes of `n`.
pub open spec fn be32(n: u32) -> Seq<u8> {
    seq![
        (n / 0x100_0000) as u8,
        (n / 0x1_0000 % 256) as u8,
        (n / 0x100 % 256) as u8,
        (n % 256) as u8,
    ]
}

/// The number that `bytes`, two of them, spell.
pub open spec fn read16(bytes: Seq<u8>) -> u16 {
    (bytes[0] * 256 + bytes[1]) as u16
}

/// The number that `bytes`, four of them, spell.
pub open spec fn read32(bytes: Seq<u8>) -> u32 {
    (bytes[0] * 0x100_0000 + bytes[1] * 0x1_0000 + bytes[2] * 0x100 + bytes[3]) as u32
}

/// Append the two bytes of `n` to `out`.
pub fn push16(out: &mut Vec<u8>, n: u16)
    ensures
        final(out)@ == old(out)@ + be16(n),
{
    out.push((n / 256) as u8);
    out.push((n % 256) as u8);
}

/// Append the four bytes of `n` to `out`.
pub fn push32(out: &mut Vec<u8>, n: u32)
    ensures
        final(out)@ == old(out)@ + be32(n),
{
    out.push((n / 0x100_0000) as u8);
    out.push((n / 0x1_0000 % 256) as u8);
    out.push((n / 0x100 % 256) as u8);
    out.push((n % 256) as u8);
}

/// The number in the two bytes of `bytes` at `at`.
pub fn take16(bytes: &[u8], at: usize) -> (n: u16)
    requires
        at + 2 <= bytes@.len(),
    ensures
        n == read16(bytes@.subrange(at as int, at + 2)),
{
    bytes[at] as u16 * 256 + bytes[at + 1] as u16
}

/// The number in the four bytes of `bytes` at `at`.
pub fn take32(bytes: &[u8], at: usize) -> (n: u32)
    requires
        at + 4 <= bytes@.len(),
    ensures
        n == read32(bytes@.subrange(at as int, at + 4)),
{
    bytes[at] as u32 * 0x100_0000 + bytes[at + 1] as u32 * 0x1_0000 + bytes[at + 2] as u32 * 0x100
        + bytes[at + 3] as u32
}

/// What two bytes spell is what wrote them, and they are what it writes.
pub proof fn two_bytes_read_back(n: u16, bytes: Seq<u8>)
    requires
        bytes.len() == 2,
    ensures
        read16(be16(n)) == n,
        be16(read16(bytes)) == bytes,
{
}

/// What four bytes spell is what wrote them, and they are what it writes.
pub proof fn four_bytes_read_back(n: u32, bytes: Seq<u8>)
    requires
        bytes.len() == 4,
    ensures
        read32(be32(n)) == n,
        be32(read32(bytes)) == bytes,
{
    assert(n == (n / 0x100_0000) * 0x100_0000 + (n / 0x1_0000 % 256) * 0x1_0000 + (n / 0x100 % 256)
        * 0x100 + n % 256) by (bit_vector);
    assert(n / 0x100_0000 < 256) by (bit_vector);
    let (a, b, c, d) = (bytes[0], bytes[1], bytes[2], bytes[3]);
    let m = read32(bytes);
    assert(m / 0x100_0000 == a && m / 0x1_0000 % 256 == b && m / 0x100 % 256 == c && m % 256 == d)
        by (bit_vector)
        requires
            m == a * 0x100_0000 + b * 0x1_0000 + c * 0x100 + d,
    ;
    assert(be32(m) =~= bytes);
}

} // verus!
