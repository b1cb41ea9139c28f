//! Compact strings, compact byte strings and compact array prefixes: an
//! unsigned varint that is the length plus one, where zero stands for null.
use crate::application::error::{malformed, ApplicationError, Malformed};
use crate::codec::buffer::{put_slice, put_u8, remaining, take_bytes, unread, written};
use crate::codec::integers::be32;
use crate::codec::varint::{
    decode_unsigned_varint, encode_unsigned_varint, lemma_unsigned_varint_round_trip, Decoded,
    Decoder, VarInt,
};
use bytes::{Bytes, BytesMut};
use vstd::prelude::*;
use vstd::utf8::{decode_utf8, encode_utf8, encode_utf8_decode_utf8, encode_utf8_valid_utf8, valid_utf8};

verus! {

/// What reads one value of type `T` from the cursor. Implementations say
/// what they decode through `decoder`, and are held to it.
pub trait Deserialize<T: DeepView> {
    /// The value that the front of an input decodes to, and what is left.
    spec fn decoder() -> Decoder<T::V>;

    /// Reads one value and moves the cursor past it.
    fn deserialize(src: &mut Bytes) -> (r: Result<T, ApplicationError>)
        ensures
            match r {
                Ok(v) => Self::decoder()(unread(*old(src))) matches Ok((value, rest))
                    && v.deep_view() == value && unread(*final(src)) == rest,
                Err(e) => Self::decoder()(unread(*old(src))) matches Err(reason) && e
                    == malformed(reason),
            },
    ;
}

/// Marker type for the compact string codec.
pub struct CompactString;

/// Marker type for the compact array codec.
pub struct CompactArray;

/// Marker type for the codec of byte strings with a compact prefix.
pub struct CompactNullableBytes;

/// `String::from_utf8`: the text that `bytes` encode, or nothing when they
/// are not valid UTF-8.
#[verifier::external_body]
pub(crate) fn text_from_utf8(bytes: Vec<u8>) -> (r: Option<String>)
    ensures
        match r {
            Some(text) => valid_utf8(bytes@) && text@ == decode_utf8(bytes@),
            None => !valid_utf8(bytes@),
        },
{
    String::from_utf8(bytes).ok()
}

/// What a compact prefix at the front of `s` announces: `None` for null,
/// else the number of elements or bytes that follow.
pub open spec fn decode_compact_len(s: Seq<u8>) -> Decoded<Option<nat>> {
    match decode_unsigned_varint(s) {
        Err(e) => Err(e),
        Ok((prefix, rest)) => if prefix == 0 {
            Ok((None, rest))
        } else {
            Ok((Some((prefix - 1) as nat), rest))
        },
    }
}

/// The compact prefix of a present collection of `len` elements.
pub open spec fn encode_compact_len(len: nat) -> Seq<u8> {
    encode_unsigned_varint(len + 1)
}

/// What reading a byte string with a compact prefix gives.
pub open spec fn decode_compact_bytes(s: Seq<u8>) -> Decoded<Option<Seq<u8>>> {
    match decode_compact_len(s) {
        Err(e) => Err(e),
        Ok((None, rest)) => Ok((None, rest)),
        Ok((Some(len), rest)) => if rest.len() < len {
            Err(Malformed::BufferExhausted)
        } else {
            Ok((Some(rest.take(len as int)), rest.skip(len as int)))
        },
    }
}

/// What reading a compact string gives: `None` for the null string.
pub open spec fn decode_compact_string(s: Seq<u8>) -> Decoded<Option<Seq<char>>> {
    match decode_compact_bytes(s) {
        Err(e) => Err(e),
        Ok((None, rest)) => Ok((None, rest)),
        Ok((Some(body), rest)) => if valid_utf8(body) {
            Ok((Some(decode_utf8(body)), rest))
        } else {
            Err(Malformed::InvalidUtf8)
        },
    }
}

/// The encoding of a byte string behind a compact prefix; `None` is the
/// null string.
pub open spec fn encode_compact_bytes(body: Option<Seq<u8>>) -> Seq<u8> {
    match body {
        None => seq![0u8],
        Some(b) => encode_compact_len(b.len()) + b,
    }
}

/// The encoding of a compact string; `None` is the null string.
pub open spec fn encode_compact_string(text: Option<Seq<char>>) -> Seq<u8> {
    match text {
        None => seq![0u8],
        Some(chars) => encode_compact_len(encode_utf8(chars).len()) + encode_utf8(chars),
    }
}

/// `count` items in a row, each decoded by `item`.
pub open spec fn decode_repeated<T>(item: Decoder<T>, s: Seq<u8>, count: nat) -> Decoded<Seq<T>>
    decreases count,
{
    if count == 0 {
        Ok((Seq::empty(), s))
    } else {
        match item(s) {
            Err(e) => Err(e),
            Ok((first, rest)) => match decode_repeated(item, rest, (count - 1) as nat) {
                Err(e) => Err(e),
                Ok((others, end)) => Ok((seq![first] + others, end)),
            },
        }
    }
}

/// The result `tail`, as seen from an earlier point at which `done` had
/// been decoded already.
pub open spec fn after<T>(done: Seq<T>, tail: Decoded<Seq<T>>) -> Decoded<Seq<T>> {
    match tail {
        Err(e) => Err(e),
        Ok((others, end)) => Ok((done + others, end)),
    }
}

/// Decoding one more item moves it from the tail to what is done.
pub proof fn lemma_repeated_step<T>(item: Decoder<T>, s: Seq<u8>, count: nat, done: Seq<T>)
    requires
        count > 0,
    ensures
        after(done, decode_repeated(item, s, count)) == match item(s) {
            Err(e) => Err(e),
            Ok((first, rest)) => after(
                done.push(first),
                decode_repeated(item, rest, (count - 1) as nat),
            ),
        },
{
    match item(s) {
        Err(e) => {},
        Ok((first, rest)) => {
            match decode_repeated(item, rest, (count - 1) as nat) {
                Err(e) => {},
                Ok((others, end)) => {
                    assert(done + (seq![first] + others) =~= done.push(first) + others);
                },
            }
        },
    }
}

/// With nothing left to decode, what is done is the result.
pub proof fn lemma_repeated_done<T>(item: Decoder<T>, s: Seq<u8>, done: Seq<T>)
    ensures
        after(done, decode_repeated(item, s, 0)) == Ok::<(Seq<T>, Seq<u8>), Malformed>((done, s)),
{
    assert(done + Seq::<T>::empty() =~= done);
}

/// An array with a compact prefix whose elements are decoded by `item`.
/// A null array reads as the empty one.
pub open spec fn decode_compact_array<T>(item: Decoder<T>, s: Seq<u8>) -> Decoded<Seq<T>> {
    match decode_compact_len(s) {
        Err(e) => Err(e),
        Ok((None, rest)) => Ok((Seq::empty(), rest)),
        Ok((Some(count), rest)) => decode_repeated(item, rest, count),
    }
}

/// One big-endian unsigned 32-bit element.
pub open spec fn decode_u32(s: Seq<u8>) -> Decoded<u32> {
    if s.len() < 4 {
        Err(Malformed::BufferExhausted)
    } else {
        Ok((be32(s) as u32, s.skip(4)))
    }
}

/// The decoder of big-endian unsigned 32-bit elements.
pub open spec fn u32_decoder() -> Decoder<u32> {
    |s: Seq<u8>| decode_u32(s)
}

/// A present compact string decodes to itself, whatever follows it.
pub proof fn lemma_compact_string_round_trip(chars: Seq<char>, rest: Seq<u8>)
    requires
        encode_utf8(chars).len() + 1 < 0x1_0000_0000_0000_0000,
    ensures
        decode_compact_string(encode_compact_string(Some(chars)) + rest) == Ok::<
            (Option<Seq<char>>, Seq<u8>),
            Malformed,
        >((Some(chars), rest)),
{
    let body = encode_utf8(chars);
    let prefix = encode_compact_len(body.len());
    let s = encode_compact_string(Some(chars)) + rest;
    assert(s =~= prefix + (body + rest));
    lemma_unsigned_varint_round_trip(body.len() + 1, body + rest);
    assert((body + rest).take(body.len() as int) =~= body);
    assert((body + rest).skip(body.len() as int) =~= rest);
    encode_utf8_valid_utf8(chars);
    encode_utf8_decode_utf8(chars);
}

/// The single byte 0 decodes to the null string and the single byte 1 to
/// the empty string.
pub proof fn lemma_compact_string_null_and_empty()
    ensures
        decode_compact_string(seq![0u8]) == Ok::<(Option<Seq<char>>, Seq<u8>), Malformed>(
            (None, Seq::empty()),
        ),
        decode_compact_string(seq![1u8]) == Ok::<(Option<Seq<char>>, Seq<u8>), Malformed>(
            (Some(Seq::empty()), Seq::empty()),
        ),
        encode_compact_string(None) == seq![0u8],
        encode_compact_string(Some(Seq::empty())) == seq![1u8],
        encode_compact_len(0) == seq![1u8],
{
    let zero = seq![0u8];
    let one = seq![1u8];
    assert(encode_unsigned_varint(0) =~= zero);
    assert(encode_unsigned_varint(1) =~= one);
    assert(zero =~= encode_unsigned_varint(0) + Seq::<u8>::empty());
    assert(one =~= encode_unsigned_varint(1) + Seq::<u8>::empty());
    lemma_unsigned_varint_round_trip(0, Seq::empty());
    lemma_unsigned_varint_round_trip(1, Seq::empty());
    assert(Seq::<u8>::empty().take(0) =~= Seq::<u8>::empty());
    assert(Seq::<u8>::empty().skip(0) =~= Seq::<u8>::empty());
    assert(encode_utf8(Seq::<char>::empty()) =~= Seq::<u8>::empty());
    encode_utf8_valid_utf8(Seq::<char>::empty());
    encode_utf8_decode_utf8(Seq::<char>::empty());
    assert(encode_compact_string(Some(Seq::empty())) =~= one);
}

impl CompactArray {
    /// Reads a compact prefix: `None` for null, else the announced length.
    pub fn deserialize_len(src: &mut Bytes) -> (r: Result<Option<u64>, ApplicationError>)
        ensures
            match r {
                Ok(len) => decode_compact_len(unread(*old(src))) matches Ok((value, rest)) && (
                match len {
                    Some(l) => value == Some(l as nat),
                    None => value is None,
                }) && unread(*final(src)) == rest,
                Err(e) => decode_compact_len(unread(*old(src))) matches Err(reason) && e
                    == malformed(reason),
            },
    {
        let prefix = VarInt::deserialize(src)?;
        if prefix == 0 {
            Ok(None)
        } else {
            Ok(Some(prefix - 1))
        }
    }

    /// Appends the compact prefix of a present collection of `len` elements.
    pub fn serialize_len(len: usize, dst: &mut BytesMut)
        ensures
            written(*final(dst)) == written(*old(dst)) + encode_compact_len(len as nat),
    {
        VarInt::serialize_wide(len as u128 + 1, dst)
    }

    /// Reads a compact array whose elements are read by `U`. A null array
    /// reads as the empty one.
    pub fn deserialize<T: DeepView, U: Deserialize<T>>(src: &mut Bytes) -> (r: Result<
        Vec<T>,
        ApplicationError,
    >)
        ensures
            match r {
                Ok(items) => decode_compact_array(U::decoder(), unread(*old(src))) matches Ok(
                    (value, rest),
                ) && items.deep_view() == value && unread(*final(src)) == rest,
                Err(e) => decode_compact_array(U::decoder(), unread(*old(src))) matches Err(
                    reason,
                ) && e == malformed(reason),
            },
    {
        match CompactArray::deserialize_len(src)? {
            Some(count) => read_items::<T, U>(src, count),
            None => {
                let items: Vec<T> = Vec::new();
                assert(items.deep_view() =~= Seq::<T::V>::empty());
                Ok(items)
            },
        }
    }
}

/// Reads `count` items in a row, each read by `U`.
pub fn read_items<T: DeepView, U: Deserialize<T>>(src: &mut Bytes, count: u64) -> (r: Result<
    Vec<T>,
    ApplicationError,
>)
    ensures
        match r {
            Ok(items) => decode_repeated(U::decoder(), unread(*old(src)), count as nat) matches Ok(
                (value, rest),
            ) && items.deep_view() == value && unread(*final(src)) == rest,
            Err(e) => decode_repeated(U::decoder(), unread(*old(src)), count as nat) matches Err(
                reason,
            ) && e == malformed(reason),
        },
{
    let ghost item = U::decoder();
    let ghost whole = decode_repeated(item, unread(*src), count as nat);
    let mut items: Vec<T> = Vec::new();
    let mut i: u64 = 0;
    proof {
        assert(items.deep_view() =~= Seq::<T::V>::empty());
        assert(Seq::<T::V>::empty() + Seq::<T::V>::empty() =~= Seq::<T::V>::empty());
        match whole {
            Ok((all, end)) => {
                assert(Seq::<T::V>::empty() + all =~= all);
            },
            Err(_) => {},
        }
    }
    while i < count
        invariant
            i <= count,
            item == U::decoder(),
            whole == decode_repeated(item, unread(*old(src)), count as nat),
            whole == after(
                items.deep_view(),
                decode_repeated(item, unread(*src), (count - i) as nat),
            ),
        decreases count - i,
    {
        proof {
            lemma_repeated_step(item, unread(*src), (count - i) as nat, items.deep_view());
        }
        let ghost done = items.deep_view();
        let value = match U::deserialize(src) {
            Ok(value) => value,
            Err(e) => {
                return Err(e);
            },
        };
        let ghost model = value.deep_view();
        items.push(value);
        assert(items.deep_view() =~= done.push(model));
        i = i + 1;
    }
    proof {
        lemma_repeated_done(item, unread(*src), items.deep_view());
    }
    Ok(items)
}

impl CompactNullableBytes {
    /// Reads a byte string with a compact prefix; `None` is the null string.
    pub fn deserialize(src: &mut Bytes) -> (r: Result<Option<Vec<u8>>, ApplicationError>)
        ensures
            match r {
                Ok(body) => decode_compact_bytes(unread(*old(src))) matches Ok((value, rest)) && (
                match body {
                    Some(b) => value == Some(b@),
                    None => value is None,
                }) && unread(*final(src)) == rest,
                Err(e) => decode_compact_bytes(unread(*old(src))) matches Err(reason) && e
                    == malformed(reason),
            },
    {
        let len = match CompactArray::deserialize_len(src)? {
            Some(len) => len,
            None => {
                return Ok(None);
            },
        };
        let left = remaining(src);
        if (left as u64) < len {
            return Err(ApplicationError::MalformedRequest(Malformed::BufferExhausted));
        }
        let body = take_bytes(src, len as usize);
        Ok(Some(body))
    }

    /// Appends the encoding of a present byte string.
    pub fn serialize(body: &[u8], dst: &mut BytesMut)
        ensures
            written(*final(dst)) == written(*old(dst)) + encode_compact_bytes(Some(body@)),
    {
        let ghost before = written(*dst);
        CompactArray::serialize_len(body.len(), dst);
        put_slice(dst, body);
        proof {
            assert(written(*dst) =~= before + encode_compact_bytes(Some(body@)));
        }
    }

    /// Appends the encoding of the null byte string.
    pub fn serialize_null(dst: &mut BytesMut)
        ensures
            written(*final(dst)) == written(*old(dst)) + encode_compact_bytes(None),
    {
        let ghost before = written(*dst);
        put_u8(dst, 0);
        proof {
            assert(written(*dst) =~= before + encode_compact_bytes(None));
        }
    }
}

/// A present byte string decodes to itself, whatever follows it.
pub proof fn lemma_compact_bytes_round_trip(body: Seq<u8>, rest: Seq<u8>)
    requires
        body.len() + 1 < 0x1_0000_0000_0000_0000,
    ensures
        decode_compact_bytes(encode_compact_bytes(Some(body)) + rest) == Ok::<
            (Option<Seq<u8>>, Seq<u8>),
            Malformed,
        >((Some(body), rest)),
{
    let prefix = encode_compact_len(body.len());
    assert(encode_compact_bytes(Some(body)) + rest =~= prefix + (body + rest));
    lemma_unsigned_varint_round_trip(body.len() + 1, body + rest);
    assert((body + rest).take(body.len() as int) =~= body);
    assert((body + rest).skip(body.len() as int) =~= rest);
}

impl CompactString {
    /// Reads a compact string; `None` is the null string.
    pub fn deserialize(src: &mut Bytes) -> (r: Result<Option<String>, ApplicationError>)
        ensures
            match r {
                Ok(text) => decode_compact_string(unread(*old(src))) matches Ok((value, rest)) && (
                match text {
                    Some(t) => value == Some(t@),
                    None => value is None,
                }) && unread(*final(src)) == rest,
                Err(e) => decode_compact_string(unread(*old(src))) matches Err(reason) && e
                    == malformed(reason),
            },
    {
        match CompactNullableBytes::deserialize(src)? {
            None => Ok(None),
            Some(body) => match text_from_utf8(body) {
                Some(text) => Ok(Some(text)),
                None => Err(ApplicationError::MalformedRequest(Malformed::InvalidUtf8)),
            },
        }
    }

    /// Appends the encoding of a present string.
    pub fn serialize(text: &str, dst: &mut BytesMut)
        ensures
            written(*final(dst)) == written(*old(dst)) + encode_compact_string(Some(text@)),
    {
        let ghost before = written(*dst);
        let body = text.as_bytes();
        CompactArray::serialize_len(body.len(), dst);
        put_slice(dst, body);
        proof {
            assert(written(*dst) =~= before + encode_compact_string(Some(text@)));
        }
    }

    /// Appends the encoding of the null string.
    pub fn serialize_null(dst: &mut BytesMut)
        ensures
            written(*final(dst)) == written(*old(dst)) + encode_compact_string(None),
    {
        let ghost before = written(*dst);
        put_u8(dst, 0);
        proof {
            assert(written(*dst) =~= before + encode_compact_string(None));
        }
    }
}

} // verus!
