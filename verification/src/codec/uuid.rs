//! UUIDs: sixteen raw bytes on the wire, and 32 lowercase hex digits
//! grouped 8-4-4-4-12 by hyphens as text.
use crate::application::error::{malformed, ApplicationError, Malformed};
use crate::codec::buffer::{put_slice, remaining, take_bytes, unread, written};
use crate::codec::varint::{Decoded, Decoder};
use bytes::{Bytes, BytesMut};
use vstd::prelude::*;
use vstd::string::*;
use vstd::utf8::{encode_utf8, is_ascii_chars, is_ascii_chars_encode_utf8};

verus! {

/// Marker type for the UUID codec.
pub struct Uuid;

/// The lowercase hex digit for a number below 16.
pub open spec fn hex_digit(n: nat) -> char {
    if n < 10 {
        (48 + n) as char
    } else {
        (87 + n) as char
    }
}

/// The lowercase hex text of `data`: two digits per byte, high digit first.
pub open spec fn hex_text(data: Seq<u8>) -> Seq<char> {
    Seq::new(
        2 * data.len(),
        |i: int|
            hex_digit(
                if i % 2 == 0 {
                    (data[i / 2] / 16) as nat
                } else {
                    (data[i / 2] % 16) as nat
                },
            ),
    )
}

/// The number that an ASCII hex digit of either case stands for.
pub open spec fn hex_digit_value(c: u8) -> Option<nat> {
    if 48 <= c <= 57 {
        Some((c - 48) as nat)
    } else if 97 <= c <= 102 {
        Some((c - 87) as nat)
    } else if 65 <= c <= 70 {
        Some((c - 55) as nat)
    } else {
        None
    }
}

/// `text` consists of an even number of ASCII hex digits.
pub open spec fn is_hex(text: Seq<u8>) -> bool {
    text.len() % 2 == 0 && forall|i: int| 0 <= i < text.len() ==> hex_digit_value(text[i]) is Some
}

/// The bytes that the hex digits `text` spell.
pub open spec fn hex_bytes(text: Seq<u8>) -> Seq<u8> {
    Seq::new(
        text.len() / 2,
        |i: int|
            (16 * hex_digit_value(text[2 * i]).unwrap() + hex_digit_value(
                text[2 * i + 1],
            ).unwrap()) as u8,
    )
}

/// `hex::encode`: the lowercase hex text of `data`.
#[verifier::external_body]
fn hex_encode(data: &[u8]) -> (text: String)
    ensures
        text@ == hex_text(data@),
{
    hex::encode(data)
}

/// `hex::decode`: the bytes that the hex digits `text` spell, or nothing
/// when `text` has odd length or holds a byte that is no hex digit.
#[verifier::external_body]
fn hex_decode(text: &[u8]) -> (r: Option<Vec<u8>>)
    ensures
        match r {
            Some(data) => is_hex(text@) && data@ == hex_bytes(text@),
            None => !is_hex(text@),
        },
{
    hex::decode(text).ok()
}

/// The canonical text of a UUID of sixteen bytes.
pub open spec fn uuid_text(id: Seq<u8>) -> Seq<char> {
    let h = hex_text(id);
    h.subrange(0, 8) + seq!['-'] + h.subrange(8, 12) + seq!['-'] + h.subrange(12, 16) + seq!['-']
        + h.subrange(16, 20) + seq!['-'] + h.subrange(20, 32)
}

/// `s` without its hyphens.
pub open spec fn without_hyphens(s: Seq<u8>) -> Seq<u8>
    decreases s.len(),
{
    if s.len() == 0 {
        s
    } else if s.last() == 45 {
        without_hyphens(s.drop_last())
    } else {
        without_hyphens(s.drop_last()).push(s.last())
    }
}

/// Sixteen zero bytes.
pub open spec fn zero_uuid() -> Seq<u8> {
    Seq::new(16, |i: int| 0u8)
}

/// The sixteen bytes that a UUID text stands for. A text that, once its
/// hyphens are taken out, is not 32 hex digits stands for sixteen zeros.
pub open spec fn uuid_bytes(text: Seq<char>) -> Seq<u8> {
    let digits = without_hyphens(encode_utf8(text));
    if is_hex(digits) && digits.len() == 32 {
        hex_bytes(digits)
    } else {
        zero_uuid()
    }
}

/// What reading a UUID from the front of `s` gives: its canonical text.
pub open spec fn decode_uuid(s: Seq<u8>) -> Decoded<Seq<char>> {
    if s.len() < 16 {
        Err(Malformed::BufferExhausted)
    } else {
        Ok((uuid_text(s.take(16)), s.skip(16)))
    }
}

/// The decoder of UUIDs as canonical text.
pub open spec fn uuid_decoder() -> Decoder<Seq<char>> {
    |s: Seq<u8>| decode_uuid(s)
}

/// What reading a UUID from the front of `s` gives: its sixteen bytes.
pub open spec fn decode_raw_uuid(s: Seq<u8>) -> Decoded<Seq<u8>> {
    if s.len() < 16 {
        Err(Malformed::BufferExhausted)
    } else {
        Ok((s.take(16), s.skip(16)))
    }
}

proof fn lemma_hex_text_is_ascii(data: Seq<u8>)
    ensures
        is_ascii_chars(hex_text(data)),
        hex_text(data).len() == 2 * data.len(),
{
    assert forall|i: int| 0 <= i < hex_text(data).len() implies '\0' <= #[trigger] hex_text(data)[i]
        <= '\u{7f}' by {
        let n: nat = if i % 2 == 0 {
            (data[i / 2] / 16) as nat
        } else {
            (data[i / 2] % 16) as nat
        };
        assert(n < 16);
        assert(hex_text(data)[i] == hex_digit(n));
    }
}

proof fn lemma_without_hyphens_concat(a: Seq<u8>, b: Seq<u8>)
    ensures
        without_hyphens(a + b) == without_hyphens(a) + without_hyphens(b),
    decreases b.len(),
{
    if b.len() == 0 {
        assert(a + b =~= a);
        assert(without_hyphens(a) + without_hyphens(b) =~= without_hyphens(a));
    } else {
        assert((a + b).drop_last() =~= a + b.drop_last());
        lemma_without_hyphens_concat(a, b.drop_last());
        if b.last() == 45 {
        } else {
            assert((without_hyphens(a) + without_hyphens(b.drop_last())).push(b.last())
                =~= without_hyphens(a) + without_hyphens(b.drop_last()).push(b.last()));
        }
    }
}

proof fn lemma_without_hyphens_clean(s: Seq<u8>)
    requires
        forall|i: int| 0 <= i < s.len() ==> s[i] != 45,
    ensures
        without_hyphens(s) == s,
    decreases s.len(),
{
    if s.len() > 0 {
        lemma_without_hyphens_clean(s.drop_last());
        assert(s.drop_last().push(s.last()) =~= s);
    }
}

/// The byte of the hex digit for `n`, and the number it stands for.
proof fn lemma_hex_digit_byte(n: nat)
    requires
        n < 16,
    ensures
        hex_digit(n) as u8 != 45,
        hex_digit_value(hex_digit(n) as u8) == Some(n),
        '\0' <= hex_digit(n) <= '\u{7f}',
{
}

/// The text of a UUID stands for the bytes it was made of.
pub proof fn lemma_uuid_round_trip(id: Seq<u8>)
    requires
        id.len() == 16,
    ensures
        uuid_text(id).len() == 36,
        uuid_bytes(uuid_text(id)) == id,
{
    let h = hex_text(id);
    let t = uuid_text(id);
    let dash = seq!['-'];
    assert forall|i: int| 0 <= i < h.len() implies '\0' <= #[trigger] h[i] <= '\u{7f}' && h[i] as u8
        != 45 && hex_digit_value(h[i] as u8) is Some by {
        let n: nat = if i % 2 == 0 {
            (id[i / 2] / 16) as nat
        } else {
            (id[i / 2] % 16) as nat
        };
        lemma_hex_digit_byte(n);
        assert(h[i] == hex_digit(n));
    }
    assert forall|i: int| 0 <= i < t.len() implies '\0' <= #[trigger] t[i] <= '\u{7f}' by {
        if i < 8 {
            assert(t[i] == h[i]);
        } else if i == 8 {
        } else if i < 13 {
            assert(t[i] == h[i - 1]);
        } else if i == 13 {
        } else if i < 18 {
            assert(t[i] == h[i - 2]);
        } else if i == 18 {
        } else if i < 23 {
            assert(t[i] == h[i - 3]);
        } else if i == 23 {
        } else {
            assert(t[i] == h[i - 4]);
        }
    }
    is_ascii_chars_encode_utf8(t);
    let b = encode_utf8(t);
    let hb = Seq::new(32, |i: int| h[i] as u8);
    let d = seq![45u8];
    let first = hb.subrange(0, 8);
    let second = hb.subrange(8, 12);
    let third = hb.subrange(12, 16);
    let fourth = hb.subrange(16, 20);
    let fifth = hb.subrange(20, 32);
    assert(b =~= first + d + second + d + third + d + fourth + d + fifth) by {
        assert(b.len() == 36);
        assert forall|i: int| 0 <= i < 36 implies b[i] == (first + d + second + d + third + d + fourth + d
            + fifth)[i] by {
            assert(b[i] == t[i] as u8);
        }
    }
    assert(without_hyphens(d) =~= Seq::<u8>::empty()) by {
        assert(d.drop_last() =~= Seq::<u8>::empty());
        assert(d.last() == 45);
        assert(without_hyphens(Seq::<u8>::empty()) =~= Seq::<u8>::empty());
        assert(without_hyphens(d) == without_hyphens(d.drop_last()));
    }
    lemma_without_hyphens_clean(first);
    lemma_without_hyphens_clean(second);
    lemma_without_hyphens_clean(third);
    lemma_without_hyphens_clean(fourth);
    lemma_without_hyphens_clean(fifth);
    lemma_without_hyphens_concat(first + d + second + d + third + d + fourth + d, fifth);
    lemma_without_hyphens_concat(first + d + second + d + third + d + fourth, d);
    lemma_without_hyphens_concat(first + d + second + d + third + d, fourth);
    lemma_without_hyphens_concat(first + d + second + d + third, d);
    lemma_without_hyphens_concat(first + d + second + d, third);
    lemma_without_hyphens_concat(first + d + second, d);
    lemma_without_hyphens_concat(first + d, second);
    lemma_without_hyphens_concat(first, d);
    let digits = without_hyphens(b);
    assert(digits =~= hb);
    assert(is_hex(digits));
    assert(hex_bytes(digits) =~= id) by {
        assert forall|i: int| 0 <= i < 16 implies hex_bytes(digits)[i] == id[i] by {
            lemma_hex_digit_byte((id[i] / 16) as nat);
            lemma_hex_digit_byte((id[i] % 16) as nat);
            assert(h[2 * i] == hex_digit((id[i] / 16) as nat));
            assert(h[2 * i + 1] == hex_digit((id[i] % 16) as nat));
            assert(digits[2 * i] == h[2 * i] as u8);
            assert(digits[2 * i + 1] == h[2 * i + 1] as u8);
        }
    }
}

impl Uuid {
    /// Reads sixteen bytes and returns them as canonical text.
    pub fn deserialize(src: &mut Bytes) -> (r: Result<String, ApplicationError>)
        ensures
            match r {
                Ok(text) => decode_uuid(unread(*old(src))) matches Ok((value, rest)) && text@ == value
                    && unread(*final(src)) == rest,
                Err(e) => decode_uuid(unread(*old(src))) matches Err(reason) && e == malformed(
                    reason,
                ),
            },
    {
        if remaining(src) < 16 {
            return Err(ApplicationError::MalformedRequest(Malformed::BufferExhausted));
        }
        let raw = take_bytes(src, 16);
        Ok(Uuid::text_of(raw.as_slice()))
    }

    /// Reads sixteen bytes and returns them as they are.
    pub fn deserialize_raw(src: &mut Bytes) -> (r: Result<[u8; 16], ApplicationError>)
        ensures
            match r {
                Ok(id) => decode_raw_uuid(unread(*old(src))) matches Ok((value, rest)) && id@ == value
                    && unread(*final(src)) == rest,
                Err(e) => decode_raw_uuid(unread(*old(src))) matches Err(reason) && e
                    == malformed(reason),
            },
    {
        if remaining(src) < 16 {
            return Err(ApplicationError::MalformedRequest(Malformed::BufferExhausted));
        }
        let raw = take_bytes(src, 16);
        let id = Uuid::to_array(&raw);
        assert(id@ =~= raw@);
        Ok(id)
    }

    /// Appends the sixteen bytes of `id`.
    pub fn serialize(id: &[u8; 16], dst: &mut BytesMut)
        ensures
            written(*final(dst)) == written(*old(dst)) + id@,
    {
        put_slice(dst, id.as_slice())
    }

    /// The canonical text of the UUID `id`.
    pub fn format(id: &[u8; 16]) -> (text: String)
        ensures
            text@ == uuid_text(id@),
    {
        Uuid::text_of(id.as_slice())
    }

    /// The canonical text of the sixteen bytes `id`.
    fn text_of(id: &[u8]) -> (text: String)
        requires
            id@.len() == 16,
        ensures
            text@ == uuid_text(id@),
    {
        let hex = hex_encode(id);
        proof {
            lemma_hex_text_is_ascii(id@);
            reveal_strlit("-");
        }
        let digits = hex.as_str();
        let mut text = String::from_str(digits.substring_ascii(0, 8));
        text.append("-");
        text.append(digits.substring_ascii(8, 12));
        text.append("-");
        text.append(digits.substring_ascii(12, 16));
        text.append("-");
        text.append(digits.substring_ascii(16, 20));
        text.append("-");
        text.append(digits.substring_ascii(20, 32));
        proof {
            assert("-"@ =~= seq!['-']);
        }
        text
    }

    /// The sixteen bytes that `text` stands for; sixteen zeros when `text`
    /// is no UUID.
    pub fn parse(text: &str) -> (id: [u8; 16])
        ensures
            id@ == uuid_bytes(text@),
    {
        let raw = text.as_bytes();
        let mut digits: Vec<u8> = Vec::new();
        let mut i: usize = 0;
        while i < raw.len()
            invariant
                i <= raw@.len(),
                digits@ == without_hyphens(raw@.take(i as int)),
            decreases raw@.len() - i,
        {
            proof {
                assert(raw@.take(i + 1).drop_last() =~= raw@.take(i as int));
            }
            if raw[i] != 45 {
                digits.push(raw[i]);
            }
            i = i + 1;
        }
        proof {
            assert(raw@.take(i as int) =~= raw@);
        }
        match hex_decode(digits.as_slice()) {
            Some(data) => {
                if data.len() == 16 {
                    let id = Uuid::to_array(&data);
                    assert(id@ =~= data@);
                    id
                } else {
                    let id = [0u8;16];
                    assert(id@ =~= zero_uuid());
                    id
                }
            },
            None => {
                let id = [0u8;16];
                assert(id@ =~= zero_uuid());
                id
            },
        }
    }

    /// The array that holds the sixteen bytes of `data`.
    fn to_array(data: &Vec<u8>) -> (id: [u8; 16])
        requires
            data@.len() == 16,
        ensures
            forall|i: int| 0 <= i < 16 ==> id@[i] == data@[i],
            id@.len() == 16,
    {
        let mut id = [0u8;16];
        let mut i: usize = 0;
        while i < 16
            invariant
                i <= 16,
                data@.len() == 16,
                forall|j: int| 0 <= j < i ==> id@[j] == data@[j],
            decreases 16 - i,
        {
            id[i] = data[i];
            i = i + 1;
        }
        id
    }
}

} // verus!
