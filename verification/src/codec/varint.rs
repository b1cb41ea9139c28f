//! Variable-length integers: seven data bits per byte, least significant
//! group first, the high bit of a byte says that another byte follows.
use crate::application::error::{malformed, ApplicationError, Malformed};
use crate::codec::buffer::{get_u8, put_u8, remaining, unread, written};
use bytes::{Bytes, BytesMut};
use vstd::prelude::*;

verus! {

/// The longest encoding that is accepted: ten bytes hold 64 bits.
pub const MAX_VARINT_BYTES: usize = 10;

/// Marker type for the varint codec.
pub struct VarInt;

/// Number of bytes of the varint that starts at `s[i]`, counted from the
/// start of `s`. `None` when the input ends first or when ten bytes have
/// passed without a terminator.
pub open spec fn varint_end(s: Seq<u8>, i: nat) -> Option<nat>
    decreases 10 - i,
{
    if i >= 10 || i >= s.len() {
        None
    } else if s[i as int] < 128 {
        Some(i + 1)
    } else {
        varint_end(s, i + 1)
    }
}

/// The number that the groups of `s` spell, least significant group first.
pub open spec fn groups_value(s: Seq<u8>) -> nat
    decreases s.len(),
{
    if s.len() == 0 {
        0
    } else {
        (s[0] % 128) as nat + 128 * groups_value(s.skip(1))
    }
}

/// What a decoder gives in ghost code: the value and the input that
/// is left behind it, or the reason why the input does not decode.
pub type Decoded<T> = Result<(T, Seq<u8>), Malformed>;

/// A decoder in ghost code.
pub type Decoder<T> = spec_fn(Seq<u8>) -> Decoded<T>;

/// What reading an unsigned varint from the front of `s` gives: the value,
/// cut to 64 bits, and the input behind the varint.
pub open spec fn decode_unsigned_varint(s: Seq<u8>) -> Decoded<u64> {
    match varint_end(s, 0) {
        Some(n) => Ok(
            ((groups_value(s.take(n as int)) % 0x1_0000_0000_0000_0000) as u64, s.skip(n as int)),
        ),
        None => Err(Malformed::MalformedVarint),
    }
}

/// The encoding of `v`.
pub open spec fn encode_unsigned_varint(v: nat) -> Seq<u8>
    decreases v,
{
    if v < 128 {
        seq![v as u8]
    } else {
        seq![(128 + v % 128) as u8] + encode_unsigned_varint(v / 128)
    }
}

/// The signed number that a zig-zag pattern stands for.
pub open spec fn zigzag_decode(raw: u64) -> int {
    if raw % 2 == 0 {
        (raw / 2) as int
    } else {
        -((raw / 2) as int) - 1
    }
}

/// The zig-zag pattern of a signed number.
pub open spec fn zigzag_encode(v: int) -> nat {
    if v >= 0 {
        (2 * v) as nat
    } else {
        (-2 * v - 1) as nat
    }
}

/// What reading a zig-zag varint from the front of `s` gives.
pub open spec fn decode_signed_varint(s: Seq<u8>) -> Decoded<i64> {
    match decode_unsigned_varint(s) {
        Ok((raw, rest)) => Ok((zigzag_decode(raw) as i64, rest)),
        Err(e) => Err(e),
    }
}

/// Number of binary digits of `v`; zero has none.
pub open spec fn bit_length(v: nat) -> nat
    decreases v,
{
    if v == 0 {
        0
    } else {
        1 + bit_length(v / 2)
    }
}

/// 128 to the power `n`.
pub open spec fn pow128(n: nat) -> nat
    decreases n,
{
    if n == 0 {
        1
    } else {
        128 * pow128((n - 1) as nat)
    }
}

proof fn lemma_pow128_values()
    ensures
        pow128(0) == 1,
        pow128(1) == 0x80,
        pow128(2) == 0x4000,
        pow128(3) == 0x20_0000,
        pow128(4) == 0x1000_0000,
        pow128(5) == 0x8_0000_0000,
        pow128(6) == 0x400_0000_0000,
        pow128(7) == 0x2_0000_0000_0000,
        pow128(8) == 0x100_0000_0000_0000,
        pow128(9) == 0x8000_0000_0000_0000,
        pow128(10) == 0x40_0000_0000_0000_0000,
{
    reveal_with_fuel(pow128, 11);
}

proof fn lemma_groups_push(s: Seq<u8>, b: u8)
    ensures
        groups_value(s.push(b)) == groups_value(s) + (b % 128) as nat * pow128(s.len()),
    decreases s.len(),
{
    if s.len() == 0 {
        assert(s.push(b).skip(1) =~= Seq::<u8>::empty());
        assert(groups_value(s.push(b).skip(1)) == 0);
    } else {
        assert(s.push(b).skip(1) =~= s.skip(1).push(b));
        lemma_groups_push(s.skip(1), b);
        assert(pow128(s.len()) == 128 * pow128(s.skip(1).len()));
        assert(128 * ((b % 128) as nat * pow128(s.skip(1).len())) == (b % 128) as nat * (128
            * pow128(s.skip(1).len()))) by (nonlinear_arith);
    }
}

proof fn lemma_groups_bound(s: Seq<u8>)
    ensures
        groups_value(s) < pow128(s.len()),
    decreases s.len(),
{
    if s.len() > 0 {
        lemma_groups_bound(s.skip(1));
    }
}

/// If the bytes from `i` on are a terminated run, so are they when seen
/// from one byte earlier behind a continuation byte.
proof fn lemma_varint_end_step(s: Seq<u8>, i: nat, n: nat)
    requires
        i <= n < 10,
        n < s.len(),
        forall|j: int| i <= j < n ==> s[j] >= 128,
        s[n as int] < 128,
    ensures
        varint_end(s, i) == Some(n + 1),
    decreases n - i,
{
    if i < n {
        lemma_varint_end_step(s, i + 1, n);
    }
}

/// A varint takes between one and ten bytes, all of them from the input.
pub proof fn lemma_varint_end_bound(s: Seq<u8>, i: nat)
    ensures
        varint_end(s, i) matches Some(n) ==> i < n <= s.len() && n <= 10,
    decreases 10 - i,
{
    if i < 10 && i < s.len() && s[i as int] >= 128 {
        lemma_varint_end_bound(s, i + 1);
    }
}

proof fn lemma_varint_end_none_short(s: Seq<u8>, i: nat)
    requires
        i <= s.len(),
        forall|j: int| i <= j < s.len() ==> s[j] >= 128,
    ensures
        varint_end(s, i) is None,
    decreases 10 - i,
{
    if i < 10 && i < s.len() {
        lemma_varint_end_none_short(s, i + 1);
    }
}

proof fn lemma_varint_end_none_long(s: Seq<u8>, i: nat)
    requires
        i <= 10 <= s.len(),
        forall|j: int| i <= j < 10 ==> s[j] >= 128,
    ensures
        varint_end(s, i) is None,
    decreases 10 - i,
{
    if i < 10 {
        lemma_varint_end_none_long(s, i + 1);
    }
}

proof fn lemma_encode_shape(v: nat)
    ensures
        encode_unsigned_varint(v).len() >= 1,
        forall|j: int|
            0 <= j < encode_unsigned_varint(v).len() - 1 ==> encode_unsigned_varint(v)[j] >= 128,
        encode_unsigned_varint(v).last() < 128,
        groups_value(encode_unsigned_varint(v)) == v,
        v < pow128(encode_unsigned_varint(v).len()),
        encode_unsigned_varint(v).len() > 1 ==> v >= pow128(
            (encode_unsigned_varint(v).len() - 1) as nat,
        ),
    decreases v,
{
    let e = encode_unsigned_varint(v);
    if v < 128 {
        assert(e.skip(1) =~= Seq::<u8>::empty());
        assert(groups_value(e.skip(1)) == 0);
        assert(pow128(1) == 128) by {
            reveal_with_fuel(pow128, 2);
        }
    } else {
        let rest = encode_unsigned_varint(v / 128);
        lemma_encode_shape(v / 128);
        assert(e.skip(1) =~= rest);
        assert(e[0] == 128 + v % 128);
        assert(e[0] % 128 == v % 128);
        assert(e.last() == rest.last());
        assert forall|j: int| 0 <= j < e.len() - 1 implies e[j] >= 128 by {
            if j > 0 {
                assert(e[j] == rest[j - 1]);
            }
        }
        assert(pow128(e.len()) == 128 * pow128(rest.len()));
        if rest.len() > 1 {
            assert(pow128((e.len() - 1) as nat) == 128 * pow128((rest.len() - 1) as nat));
        } else {
            assert(pow128(1) == 128) by {
                reveal_with_fuel(pow128, 2);
            }
        }
    }
}

proof fn lemma_bit_length_shift(v: nat)
    requires
        v >= 128,
    ensures
        bit_length(v) == bit_length(v / 128) + 7,
{
    reveal_with_fuel(bit_length, 8);
    assert(v / 2 / 2 / 2 / 2 / 2 / 2 / 2 == v / 128);
}

proof fn lemma_bit_length_small(v: nat)
    requires
        v < 128,
    ensures
        bit_length(v) <= 7,
        v > 0 ==> bit_length(v) >= 1,
{
    reveal_with_fuel(bit_length, 9);
}

/// An encoding has one byte for every seven binary digits of the number,
/// and one byte for zero.
pub proof fn lemma_encoded_length(v: nat)
    ensures
        encode_unsigned_varint(v).len() == if v == 0 {
            1
        } else {
            (bit_length(v) + 6) / 7
        },
    decreases v,
{
    if v < 128 {
        lemma_bit_length_small(v);
    } else {
        lemma_encoded_length(v / 128);
        lemma_bit_length_shift(v);
        assert(encode_unsigned_varint(v).len() == 1 + encode_unsigned_varint(v / 128).len());
    }
}

/// Decoding an encoding gives the number back, whatever follows it, for
/// every number of 64 bits.
pub proof fn lemma_unsigned_varint_round_trip(v: nat, rest: Seq<u8>)
    requires
        v < 0x1_0000_0000_0000_0000,
    ensures
        decode_unsigned_varint(encode_unsigned_varint(v) + rest) == Ok::<
            (u64, Seq<u8>),
            Malformed,
        >((v as u64, rest)),
        1 <= encode_unsigned_varint(v).len() <= 10,
{
    let e = encode_unsigned_varint(v);
    let s = e + rest;
    lemma_encode_shape(v);
    lemma_pow128_values();
    let n = (e.len() - 1) as nat;
    if e.len() > 10 {
        lemma_pow128_monotonic(10, n);
    }
    assert forall|j: int| 0 <= j < n implies s[j] >= 128 by {
        assert(s[j] == e[j]);
    }
    assert(s[n as int] == e.last());
    lemma_varint_end_step(s, 0, n);
    assert(s.take(e.len() as int) =~= e);
    assert(s.skip(e.len() as int) =~= rest);
}

proof fn lemma_pow128_monotonic(a: nat, b: nat)
    requires
        a <= b,
    ensures
        pow128(a) <= pow128(b),
    decreases b,
{
    if a < b {
        lemma_pow128_monotonic(a, (b - 1) as nat);
    }
}

/// Zig-zag decoding undoes zig-zag encoding on every 64-bit signed number.
pub proof fn lemma_zigzag_round_trip(v: int)
    requires
        -0x8000_0000_0000_0000 <= v < 0x8000_0000_0000_0000,
    ensures
        zigzag_encode(v) < 0x1_0000_0000_0000_0000,
        zigzag_decode(zigzag_encode(v) as u64) == v,
{
}

impl VarInt {
    /// Reads an unsigned varint and moves the cursor past it.
    pub fn deserialize(src: &mut Bytes) -> (r: Result<u64, ApplicationError>)
        ensures
            match r {
                Ok(v) => decode_unsigned_varint(unread(*old(src))) matches Ok((value, rest))
                    && v == value && unread(*final(src)) == rest,
                Err(e) => decode_unsigned_varint(unread(*old(src))) matches Err(reason)
                    && e == malformed(reason),
            },
    {
        let ghost s = unread(*src);
        let mut acc: u128 = 0;
        let mut weight: u128 = 1;
        let mut count: usize = 0;
        proof {
            lemma_pow128_values();
        }
        while count < MAX_VARINT_BYTES
            invariant
                s == unread(*old(src)),
                count <= 10,
                count <= s.len(),
                unread(*src) == s.skip(count as int),
                forall|j: int| 0 <= j < count ==> s[j] >= 128,
                acc == groups_value(s.take(count as int)),
                weight == pow128(count as nat),
            decreases 10 - count,
        {
            if remaining(src) == 0 {
                proof {
                    lemma_varint_end_none_short(s, 0);
                }
                return Err(ApplicationError::MalformedRequest(Malformed::MalformedVarint));
            }
            let byte = get_u8(src);
            proof {
                assert(byte == s[count as int]);
                assert(s.take(count as int + 1) =~= s.take(count as int).push(byte));
                lemma_groups_push(s.take(count as int), byte);
                lemma_groups_bound(s.take(count as int));
                lemma_pow128_values();
                lemma_pow128_monotonic(count as nat, 9);
                assert((byte % 128) as nat * pow128(count as nat) <= 127 * pow128(9))
                    by (nonlinear_arith)
                    requires
                        (byte % 128) as nat <= 127,
                        pow128(count as nat) <= pow128(9),
                ;
                assert(s.skip(count as int).skip(1) =~= s.skip(count as int + 1));
            }
            acc = acc + (byte % 128) as u128 * weight;
            if byte < 128 {
                proof {
                    lemma_varint_end_step(s, 0, count as nat);
                    lemma_varint_end_bound(s, 0);
                }
                return Ok((acc % 0x1_0000_0000_0000_0000u128) as u64);
            }
            proof {
                assert(pow128((count + 1) as nat) == 128 * pow128(count as nat));
            }
            weight = weight * 128;
            count = count + 1;
        }
        proof {
            lemma_varint_end_none_long(s, 0);
        }
        Err(ApplicationError::MalformedRequest(Malformed::MalformedVarint))
    }

    /// Reads a zig-zag varint and moves the cursor past it.
    pub fn deserialize_signed(src: &mut Bytes) -> (r: Result<i64, ApplicationError>)
        ensures
            match r {
                Ok(v) => decode_signed_varint(unread(*old(src))) matches Ok((value, rest))
                    && v == value && unread(*final(src)) == rest,
                Err(e) => decode_signed_varint(unread(*old(src))) matches Err(reason)
                    && e == malformed(reason),
            },
    {
        let raw = VarInt::deserialize(src)?;
        if raw % 2 == 0 {
            Ok((raw / 2) as i64)
        } else {
            Ok(-((raw / 2) as i64) - 1)
        }
    }

    /// Appends the encoding of `value` to `dst`.
    pub fn serialize(value: u64, dst: &mut BytesMut)
        ensures
            written(*final(dst)) == written(*old(dst)) + encode_unsigned_varint(value as nat),
    {
        VarInt::serialize_wide(value as u128, dst)
    }

    /// Appends the encoding of the signed `value` in zig-zag form to `dst`.
    pub fn serialize_signed(value: i64, dst: &mut BytesMut)
        ensures
            written(*final(dst)) == written(*old(dst)) + encode_unsigned_varint(zigzag_encode(value as int)),
    {
        let raw: u128 = if value >= 0 {
            2 * (value as u128)
        } else {
            let magnitude: i128 = 0 - (value as i128);
            2 * (magnitude as u128) - 1
        };
        VarInt::serialize_wide(raw, dst)
    }

    /// Appends the encoding of a number of up to 128 bits, such as a length
    /// plus one.
    pub(crate) fn serialize_wide(value: u128, dst: &mut BytesMut)
        ensures
            written(*final(dst)) == written(*old(dst)) + encode_unsigned_varint(value as nat),
    {
        let mut val = value;
        while val >= 128
            invariant
                written(*dst) + encode_unsigned_varint(val as nat) == written(*old(dst)) + encode_unsigned_varint(
                    value as nat,
                ),
            decreases val,
        {
            let ghost before = written(*dst);
            put_u8(dst, (128 + val % 128) as u8);
            proof {
                let head = seq![(128 + val % 128) as u8];
                let tail = encode_unsigned_varint((val / 128) as nat);
                assert(encode_unsigned_varint(val as nat) == head + tail);
                assert(before.push((128 + val % 128) as u8) + tail =~= before + (head + tail));
            }
            val = val / 128;
        }
        let ghost before = written(*dst);
        put_u8(dst, val as u8);
        proof {
            assert(before.push(val as u8) =~= before + encode_unsigned_varint(val as nat));
        }
    }
}

} // verus!
