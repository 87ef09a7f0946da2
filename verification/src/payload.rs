//! The payloads of the scalar fields: integers, flags, floating-point bit
//! patterns and texts.

use crate::error::DecodeError;
use crate::scalar::{Float32, Float64};
use crate::wire::{
    field_bytes, fields_bytes, fields_fit, get_le, le_bytes, le_value, lemma_fields_bytes_single,
    lemma_field_bytes_len, lemma_le_bytes_len, lemma_le_roundtrip, lemma_le_value_bound,
    lemma_radix_pow_values, put_field, put_le, Field, MAX_PAYLOAD,
};
use vstd::prelude::*;
use vstd::utf8::{decode_utf8, encode_utf8, valid_utf8};

verus! {

/// The field that carries a 64-bit integer: eight bytes, least significant
/// first.
pub open spec fn u64_field(tag: u8, value: u64) -> Field {
    Field { tag, payload: le_bytes(value as nat, 8) }
}

/// The field that carries a 32-bit integer: four bytes, least significant
/// first.
pub open spec fn u32_field(tag: u8, value: u32) -> Field {
    Field { tag, payload: le_bytes(value as nat, 4) }
}

/// The field that carries a flag: one byte, 1 for true and 0 for false.
pub open spec fn flag_field(tag: u8, value: bool) -> Field {
    Field { tag, payload: seq![if value { 1u8 } else { 0u8 }] }
}

/// The field that carries a double-precision number: its bit pattern as a
/// 64-bit integer.
pub open spec fn f64_field(tag: u8, value: Float64) -> Field {
    u64_field(tag, value.bits)
}

/// The field that carries a single-precision number: its bit pattern as a
/// 32-bit integer.
pub open spec fn f32_field(tag: u8, value: Float32) -> Field {
    u32_field(tag, value.bits)
}

/// The field that carries a text: its UTF-8 bytes.
pub open spec fn text_field(tag: u8, text: Seq<char>) -> Field {
    Field { tag, payload: encode_utf8(text) }
}

/// The field of a double-precision member that may be absent: none where it
/// is.
pub open spec fn optional_f64(tag: u8, value: Option<Float64>) -> Seq<Field> {
    match value {
        Some(v) => seq![f64_field(tag, v)],
        None => Seq::empty(),
    }
}

/// The field of a single-precision member that may be absent: none where it
/// is.
pub open spec fn optional_f32(tag: u8, value: Option<Float32>) -> Seq<Field> {
    match value {
        Some(v) => seq![f32_field(tag, v)],
        None => Seq::empty(),
    }
}

/// The field of a text that may be absent: none where it is.
pub open spec fn optional_text(tag: u8, text: Option<Seq<char>>) -> Seq<Field> {
    match text {
        Some(t) => seq![text_field(tag, t)],
        None => Seq::empty(),
    }
}

/// A text whose UTF-8 bytes fit in one field.
pub open spec fn text_fits(text: Seq<char>) -> bool {
    encode_utf8(text).len() <= MAX_PAYLOAD
}

/// The 64-bit integer that a payload holds; the payload must be eight bytes.
pub open spec fn payload_u64(payload: Seq<u8>) -> Result<u64, DecodeError> {
    if payload.len() == 8 {
        Ok(le_value(payload) as u64)
    } else {
        Err(DecodeError::Malformed)
    }
}

/// The 32-bit integer that a payload holds; the payload must be four bytes.
pub open spec fn payload_u32(payload: Seq<u8>) -> Result<u32, DecodeError> {
    if payload.len() == 4 {
        Ok(le_value(payload) as u32)
    } else {
        Err(DecodeError::Malformed)
    }
}

/// The flag that a payload holds; the payload must be the one byte 0 or 1.
pub open spec fn payload_flag(payload: Seq<u8>) -> Result<bool, DecodeError> {
    if payload.len() == 1 && payload[0] <= 1 {
        Ok(payload[0] == 1)
    } else {
        Err(DecodeError::Malformed)
    }
}

/// The double-precision number that a payload holds.
pub open spec fn payload_f64(payload: Seq<u8>) -> Result<Float64, DecodeError> {
    match payload_u64(payload) {
        Ok(bits) => Ok(Float64 { bits }),
        Err(e) => Err(e),
    }
}

/// The single-precision number that a payload holds.
pub open spec fn payload_f32(payload: Seq<u8>) -> Result<Float32, DecodeError> {
    match payload_u32(payload) {
        Ok(bits) => Ok(Float32 { bits }),
        Err(e) => Err(e),
    }
}

/// The text that a payload holds; the payload must be UTF-8.
pub open spec fn payload_text(payload: Seq<u8>) -> Result<Seq<char>, DecodeError> {
    if valid_utf8(payload) {
        Ok(decode_utf8(payload))
    } else {
        Err(DecodeError::InvalidText)
    }
}

/// A 64-bit integer is read back from its field, which is eight bytes long.
pub proof fn lemma_u64_field(tag: u8, value: u64)
    ensures
        u64_field(tag, value).payload.len() == 8,
        payload_u64(u64_field(tag, value).payload) == Ok::<u64, DecodeError>(value),
        payload_f64(u64_field(tag, value).payload) == Ok::<Float64, DecodeError>(
            Float64 { bits: value },
        ),
{
    lemma_le_bytes_len(value as nat, 8);
    lemma_radix_pow_values();
    lemma_le_roundtrip(value as nat, 8);
}

/// A 32-bit integer is read back from its field, which is four bytes long.
pub proof fn lemma_u32_field(tag: u8, value: u32)
    ensures
        u32_field(tag, value).payload.len() == 4,
        payload_u32(u32_field(tag, value).payload) == Ok::<u32, DecodeError>(value),
        payload_f32(u32_field(tag, value).payload) == Ok::<Float32, DecodeError>(
            Float32 { bits: value },
        ),
{
    lemma_le_bytes_len(value as nat, 4);
    lemma_radix_pow_values();
    lemma_le_roundtrip(value as nat, 4);
}

/// A flag is read back from its field, which is one byte long.
pub proof fn lemma_flag_field(tag: u8, value: bool)
    ensures
        flag_field(tag, value).payload.len() == 1,
        payload_flag(flag_field(tag, value).payload) == Ok::<bool, DecodeError>(value),
{
}

/// A text is read back from its field.
pub proof fn lemma_text_field(tag: u8, text: Seq<char>)
    ensures
        payload_text(text_field(tag, text).payload) == Ok::<Seq<char>, DecodeError>(text),
{
    vstd::utf8::encode_utf8_valid_utf8(text);
    vstd::utf8::encode_utf8_decode_utf8(text);
}

/// The field of an optional double-precision member fits, takes at most 11
/// bytes, and holds the member where there is one.
pub proof fn lemma_optional_f64(tag: u8, value: Option<Float64>)
    ensures
        fields_fit(optional_f64(tag, value)),
        fields_bytes(optional_f64(tag, value)).len() <= 11,
        value is Some ==> optional_f64(tag, value) == seq![f64_field(tag, value->Some_0)]
            && payload_f64(f64_field(tag, value->Some_0).payload) == Ok::<Float64, DecodeError>(
            value->Some_0,
        ),
        value is None ==> optional_f64(tag, value) == Seq::<Field>::empty(),
{
    match value {
        Some(v) => {
            lemma_u64_field(tag, v.bits);
            lemma_fields_bytes_single(f64_field(tag, v));
            lemma_field_bytes_len(f64_field(tag, v));
        },
        None => {},
    }
}

/// The field of an optional single-precision member fits, takes at most 7
/// bytes, and holds the member where there is one.
pub proof fn lemma_optional_f32(tag: u8, value: Option<Float32>)
    ensures
        fields_fit(optional_f32(tag, value)),
        fields_bytes(optional_f32(tag, value)).len() <= 7,
        value is Some ==> optional_f32(tag, value) == seq![f32_field(tag, value->Some_0)]
            && payload_f32(f32_field(tag, value->Some_0).payload) == Ok::<Float32, DecodeError>(
            value->Some_0,
        ),
        value is None ==> optional_f32(tag, value) == Seq::<Field>::empty(),
{
    match value {
        Some(v) => {
            lemma_u32_field(tag, v.bits);
            lemma_fields_bytes_single(f32_field(tag, v));
            lemma_field_bytes_len(f32_field(tag, v));
        },
        None => {},
    }
}

/// Appends the field of a 64-bit integer.
pub fn put_u64(out: &mut Vec<u8>, tag: u8, value: u64)
    ensures
        final(out)@ == old(out)@ + field_bytes(u64_field(tag, value)),
{
    out.push(tag);
    put_le(out, 8, 2);
    put_le(out, value, 8);
    proof {
        lemma_le_bytes_len(value as nat, 8);
        assert(out@ =~= old(out)@ + (seq![tag] + le_bytes(8, 2) + le_bytes(value as nat, 8)));
    }
}

/// Appends the field of a 32-bit integer.
pub fn put_u32(out: &mut Vec<u8>, tag: u8, value: u32)
    ensures
        final(out)@ == old(out)@ + field_bytes(u32_field(tag, value)),
{
    out.push(tag);
    put_le(out, 4, 2);
    put_le(out, value as u64, 4);
    proof {
        lemma_le_bytes_len(value as nat, 4);
        assert(out@ =~= old(out)@ + (seq![tag] + le_bytes(4, 2) + le_bytes(value as nat, 4)));
    }
}

/// Appends the field of a flag.
pub fn put_flag(out: &mut Vec<u8>, tag: u8, value: bool)
    ensures
        final(out)@ == old(out)@ + field_bytes(flag_field(tag, value)),
{
    out.push(tag);
    put_le(out, 1, 2);
    out.push(if value { 1u8 } else { 0u8 });
    proof {
        assert(out@ =~= old(out)@ + (seq![tag] + le_bytes(1, 2) + seq![if value { 1u8 } else { 0u8 }]));
    }
}

/// Appends the field of a double-precision number.
pub fn put_f64(out: &mut Vec<u8>, tag: u8, value: Float64)
    ensures
        final(out)@ == old(out)@ + field_bytes(f64_field(tag, value)),
{
    put_u64(out, tag, value.bits)
}

/// Appends the field of a single-precision number.
pub fn put_f32(out: &mut Vec<u8>, tag: u8, value: Float32)
    ensures
        final(out)@ == old(out)@ + field_bytes(f32_field(tag, value)),
{
    put_u32(out, tag, value.bits)
}

/// Appends the field of a double-precision member that may be absent.
pub fn put_optional_f64(out: &mut Vec<u8>, tag: u8, value: Option<Float64>)
    ensures
        final(out)@ == old(out)@ + fields_bytes(optional_f64(tag, value)),
{
    match value {
        Some(v) => {
            put_f64(out, tag, v);
            proof {
                lemma_fields_bytes_single(f64_field(tag, v));
            }
        },
        None => {
            proof {
                assert(old(out)@ + fields_bytes(Seq::<Field>::empty()) =~= old(out)@);
            }
        },
    }
}

/// Appends the field of a single-precision member that may be absent.
pub fn put_optional_f32(out: &mut Vec<u8>, tag: u8, value: Option<Float32>)
    ensures
        final(out)@ == old(out)@ + fields_bytes(optional_f32(tag, value)),
{
    match value {
        Some(v) => {
            put_f32(out, tag, v);
            proof {
                lemma_fields_bytes_single(f32_field(tag, v));
            }
        },
        None => {
            proof {
                assert(old(out)@ + fields_bytes(Seq::<Field>::empty()) =~= old(out)@);
            }
        },
    }
}

/// Appends the field of a text if the text fits in one, and says whether it
/// did.
pub fn put_text(out: &mut Vec<u8>, tag: u8, text: &str) -> (fits: bool)
    ensures
        fits == text_fits(text@),
        fits ==> final(out)@ == old(out)@ + field_bytes(text_field(tag, text@)),
        !fits ==> final(out)@ == old(out)@,
{
    put_field(out, tag, text.as_bytes())
}

/// Reads the payload of a 64-bit integer.
pub fn read_u64(payload: &[u8]) -> (value: Result<u64, DecodeError>)
    ensures
        value == payload_u64(payload@),
{
    if payload.len() != 8 {
        return Err(DecodeError::Malformed);
    }
    let value = get_le(payload, 0, 8);
    proof {
        assert(payload@.subrange(0, 8) =~= payload@);
    }
    Ok(value)
}

/// Reads the payload of a 32-bit integer.
pub fn read_u32(payload: &[u8]) -> (value: Result<u32, DecodeError>)
    ensures
        value == payload_u32(payload@),
{
    if payload.len() != 4 {
        return Err(DecodeError::Malformed);
    }
    let value = get_le(payload, 0, 4);
    proof {
        assert(payload@.subrange(0, 4) =~= payload@);
        lemma_le_value_bound(payload@);
        lemma_radix_pow_values();
    }
    Ok(value as u32)
}

/// Reads the payload of a flag.
pub fn read_flag(payload: &[u8]) -> (value: Result<bool, DecodeError>)
    ensures
        value == payload_flag(payload@),
{
    if payload.len() != 1 || payload[0] > 1 {
        return Err(DecodeError::Malformed);
    }
    Ok(payload[0] == 1)
}

/// Reads the payload of a double-precision number.
pub fn read_f64(payload: &[u8]) -> (value: Result<Float64, DecodeError>)
    ensures
        value == payload_f64(payload@),
{
    match read_u64(payload) {
        Ok(bits) => Ok(Float64 { bits }),
        Err(e) => Err(e),
    }
}

/// Reads the payload of a single-precision number.
pub fn read_f32(payload: &[u8]) -> (value: Result<Float32, DecodeError>)
    ensures
        value == payload_f32(payload@),
{
    match read_u32(payload) {
        Ok(bits) => Ok(Float32 { bits }),
        Err(e) => Err(e),
    }
}

/// Calls `String::from_utf8` of the standard library. The contract is taken
/// on trust from its documentation, not proved: the call succeeds exactly
/// where the bytes are well-formed UTF-8, and the text that it returns has
/// those very bytes as its UTF-8 form.
#[verifier::external_body]
fn string_from_utf8(bytes: Vec<u8>) -> (text: Option<String>)
    ensures
        text is Some <==> valid_utf8(bytes@),
        text matches Some(t) ==> encode_utf8(t@) == bytes@,
{
    match String::from_utf8(bytes) {
        Ok(text) => Some(text),
        Err(_) => None,
    }
}

/// Reads the payload of a text.
pub fn read_text(payload: &[u8]) -> (text: Result<String, DecodeError>)
    ensures
        match text {
            Ok(t) => payload_text(payload@) == Ok::<Seq<char>, DecodeError>(t@),
            Err(e) => payload_text(payload@) == Err::<Seq<char>, DecodeError>(e),
        },
{
    match string_from_utf8(vstd::slice::slice_to_vec(payload)) {
        Some(text) => {
            proof {
                vstd::utf8::encode_utf8_decode_utf8(text@);
            }
            Ok(text)
        },
        None => Err(DecodeError::InvalidText),
    }
}

} // verus!
