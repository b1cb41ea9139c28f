//! Fixed-width big-endian integers as they appear on the wire.
use vstd::prelude::*;

verus! {

/// The unsigned 16-bit value held big-endian in the first two bytes of `s`.
pub open spec fn be16(s: Seq<u8>) -> nat {
    (s[0] as nat) * 0x100 + (s[1] as nat)
}

/// The unsigned 32-bit value held big-endian in the first four bytes of `s`.
pub open spec fn be32(s: Seq<u8>) -> nat {
    (s[0] as nat) * 0x100_0000 + (s[1] as nat) * 0x1_0000 + (s[2] as nat) * 0x100 + (s[3] as nat)
}

/// The unsigned 64-bit value held big-endian in the first eight bytes of `s`.
pub open spec fn be64(s: Seq<u8>) -> nat {
    be32(s) * 0x1_0000_0000 + be32(s.skip(4))
}

/// Two's-complement reading of an 8-bit pattern.
pub open spec fn signed8(u: nat) -> int {
    if u < 0x80 {
        u as int
    } else {
        u - 0x100
    }
}

/// Two's-complement reading of a 16-bit pattern.
pub open spec fn signed16(u: nat) -> int {
    if u < 0x8000 {
        u as int
    } else {
        u - 0x1_0000
    }
}

/// Two's-complement reading of a 32-bit pattern.
pub open spec fn signed32(u: nat) -> int {
    if u < 0x8000_0000 {
        u as int
    } else {
        u - 0x1_0000_0000
    }
}

/// Two's-complement reading of a 64-bit pattern.
pub open spec fn signed64(u: nat) -> int {
    if u < 0x8000_0000_0000_0000 {
        u as int
    } else {
        u - 0x1_0000_0000_0000_0000
    }
}

/// The 8-bit pattern of a signed value.
pub open spec fn pattern8(v: int) -> nat {
    if v >= 0 {
        v as nat
    } else {
        (v + 0x100) as nat
    }
}

/// The 16-bit pattern of a signed value.
pub open spec fn pattern16(v: int) -> nat {
    if v >= 0 {
        v as nat
    } else {
        (v + 0x1_0000) as nat
    }
}

/// The 32-bit pattern of a signed value.
pub open spec fn pattern32(v: int) -> nat {
    if v >= 0 {
        v as nat
    } else {
        (v + 0x1_0000_0000) as nat
    }
}

/// The 64-bit pattern of a signed value.
pub open spec fn pattern64(v: int) -> nat {
    if v >= 0 {
        v as nat
    } else {
        (v + 0x1_0000_0000_0000_0000) as nat
    }
}

/// The two bytes that hold `v` big-endian.
pub open spec fn be16_bytes(v: nat) -> Seq<u8> {
    seq![(v / 0x100 % 0x100) as u8, (v % 0x100) as u8]
}

/// The four bytes that hold `v` big-endian.
pub open spec fn be32_bytes(v: nat) -> Seq<u8> {
    seq![
        (v / 0x100_0000 % 0x100) as u8,
        (v / 0x1_0000 % 0x100) as u8,
        (v / 0x100 % 0x100) as u8,
        (v % 0x100) as u8,
    ]
}

/// The eight bytes that hold `v` big-endian.
pub open spec fn be64_bytes(v: nat) -> Seq<u8> {
    be32_bytes(v / 0x1_0000_0000) + be32_bytes(v % 0x1_0000_0000)
}

/// Reading back two big-endian bytes gives the value that was written.
pub proof fn lemma_be16_round_trip(v: nat, rest: Seq<u8>)
    requires
        v < 0x1_0000,
    ensures
        be16_bytes(v).len() == 2,
        be16(be16_bytes(v) + rest) == v,
{
}

/// Reading back four big-endian bytes gives the value that was written.
pub proof fn lemma_be32_round_trip(v: nat, rest: Seq<u8>)
    requires
        v < 0x1_0000_0000,
    ensures
        be32_bytes(v).len() == 4,
        be32(be32_bytes(v) + rest) == v,
{
}

/// A signed value survives the passage through its bit pattern.
pub proof fn lemma_pattern_round_trip(v: int)
    ensures
        -0x80 <= v < 0x80 ==> signed8(pattern8(v)) == v && pattern8(v) < 0x100,
        -0x8000 <= v < 0x8000 ==> signed16(pattern16(v)) == v && pattern16(v) < 0x1_0000,
        -0x8000_0000 <= v < 0x8000_0000 ==> signed32(pattern32(v)) == v && pattern32(v)
            < 0x1_0000_0000,
        -0x8000_0000_0000_0000 <= v < 0x8000_0000_0000_0000 ==> signed64(pattern64(v)) == v
            && pattern64(v) < 0x1_0000_0000_0000_0000,
{
}

} // verus!
