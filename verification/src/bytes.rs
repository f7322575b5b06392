//! Numbers as bytes, in both byte orders.
use vstd::prelude::*;

verus! {

/// Byte number `k` of `x`, out of the four lowest, of which the lowest is number 0. A
/// negative `x` is taken in two's complement.
pub open spec fn byte_of(x: int, k: nat) -> u8 {
    if k == 0 {
        (x % 0x100) as u8
    } else if k == 1 {
        (x / 0x100 % 0x100) as u8
    } else if k == 2 {
        (x / 0x1_0000 % 0x100) as u8
    } else {
        (x / 0x100_0000 % 0x100) as u8
    }
}

/// The four lowest bytes of `x`, lowest first.
pub open spec fn le32(x: int) -> Seq<u8> {
    Seq::new(4, |k: int| byte_of(x, k as nat))
}

/// The four lowest bytes of `x`, highest first.
pub open spec fn be32(x: int) -> Seq<u8> {
    Seq::new(4, |k: int| byte_of(x, (3 - k) as nat))
}

/// The eight lowest bytes of `x`, highest first.
pub open spec fn be64(x: int) -> Seq<u8> {
    be32(x / 0x1_0000_0000) + be32(x % 0x1_0000_0000)
}

/// The number whose bytes are the first two of `s`, lowest first.
pub open spec fn le16_value(s: Seq<u8>) -> int {
    s[0] + 0x100 * s[1]
}

/// The number whose bytes are the first four of `s`, lowest first.
pub open spec fn le32_value(s: Seq<u8>) -> int {
    s[0] + 0x100 * s[1] + 0x1_0000 * s[2] + 0x100_0000 * s[3]
}

/// The number whose bytes are the first four of `s`, highest first.
pub open spec fn be32_value(s: Seq<u8>) -> int {
    s[3] + 0x100 * s[2] + 0x1_0000 * s[1] + 0x100_0000 * s[0]
}

/// The number whose bytes are the first eight of `s`, highest first.
pub open spec fn be64_value(s: Seq<u8>) -> int {
    0x1_0000_0000 * be32_value(s) + be32_value(s.skip(4))
}

/// Reading the four bytes of a number, lowest first, gives the number back.
pub proof fn lemma_le32_round_trip(x: int, rest: Seq<u8>)
    requires
        0 <= x < 0x1_0000_0000,
    ensures
        le32_value(le32(x) + rest) == x,
{
    assert(x == x % 0x100 + 0x100 * (x / 0x100 % 0x100) + 0x1_0000 * (x / 0x1_0000 % 0x100)
        + 0x100_0000 * (x / 0x100_0000 % 0x100));
}

/// Reading the four bytes of a number, highest first, gives the number back.
pub proof fn lemma_be32_round_trip(x: int, rest: Seq<u8>)
    requires
        0 <= x < 0x1_0000_0000,
    ensures
        be32_value(be32(x) + rest) == x,
{
    assert(x == x % 0x100 + 0x100 * (x / 0x100 % 0x100) + 0x1_0000 * (x / 0x1_0000 % 0x100)
        + 0x100_0000 * (x / 0x100_0000 % 0x100));
}

/// Reading the eight bytes of a number, highest first, gives the number back.
pub proof fn lemma_be64_round_trip(x: u64, rest: Seq<u8>)
    ensures
        be64_value(be64(x as int) + rest) == x,
{
    let hi: int = x as int / 0x1_0000_0000;
    let lo: int = x as int % 0x1_0000_0000;
    let all = be64(x as int) + rest;
    assert(all =~= be32(hi) + (be32(lo) + rest));
    assert(all.skip(4) =~= be32(lo) + rest);
    lemma_be32_round_trip(hi, be32(lo) + rest);
    lemma_be32_round_trip(lo, rest);
}

/// The four bytes of `x`, lowest first.
pub fn u32_le_bytes(x: u32) -> (b: [u8; 4])
    ensures
        b@ == le32(x as int),
{
    [
        (x % 0x100) as u8,
        (x / 0x100 % 0x100) as u8,
        (x / 0x1_0000 % 0x100) as u8,
        (x / 0x100_0000 % 0x100) as u8,
    ]
}

/// The number whose bytes are `b`, lowest first.
pub fn u16_from_le_bytes(b: [u8; 2]) -> (x: u16)
    ensures
        x == le16_value(b@),
{
    b[0] as u16 + 0x100 * b[1] as u16
}

} // verus!
