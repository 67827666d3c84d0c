//! AMF0, the self-describing value format of script tags.
//!
//! A value is one type byte and a payload that the type decides. Objects and
//! associative arrays are runs of (name, value) pairs closed by a pair whose
//! value is the end marker; strict arrays hold a counted run of values.
//! Numbers are kept as the 64 bits of their IEEE-754 double, which is what the
//! wire holds.

use vstd::prelude::*;
use vstd::slice::slice_to_vec;
use vstd::utf8::{decode_utf8, valid_utf8};
use crate::bytes::{
    signed16, spec_signed, spec_u16_be, spec_u32_be, spec_u64_be, tail, u16_be, u32_be, u64_be,
};
use crate::error::{view_result, Decoded, FlvError};

verus! {

/// Type byte of a number.
pub const AMF_DATA_TYPE_NUMBER: u8 = 0;

/// Type byte of a boolean.
pub const AMF_DATA_TYPE_BOOL: u8 = 1;

/// Type byte of a string.
pub const AMF_DATA_TYPE_STRING: u8 = 2;

/// Type byte of an object.
pub const AMF_DATA_TYPE_OBJECT: u8 = 3;

/// Type byte of null.
pub const AMF_DATA_TYPE_NULL: u8 = 5;

/// Type byte of undefined.
pub const AMF_DATA_TYPE_UNDEFINED: u8 = 6;

/// Type byte of a reference.
pub const AMF_DATA_TYPE_REFERENCE: u8 = 7;

/// Type byte of an associative array.
pub const AMF_DATA_TYPE_MIXEDARRAY: u8 = 8;

/// Type byte of the end marker.
pub const AMF_DATA_TYPE_OBJECT_END: u8 = 9;

/// Type byte of a strict array.
pub const AMF_DATA_TYPE_ARRAY: u8 = 10;

/// Type byte of a date.
pub const AMF_DATA_TYPE_DATE: u8 = 11;

/// Type byte of a long string.
pub const AMF_DATA_TYPE_LONG_STRING: u8 = 12;

/// Type byte of the "unsupported" marker.
pub const AMF_DATA_TYPE_UNSUPPORTED: u8 = 13;

/// How many composite values (objects and arrays) may enclose a value.
pub const AMF_MAX_DEPTH: usize = 64;

/// A date: milliseconds since the epoch, as the bits of a double, and the
/// time zone as an offset in minutes.
#[derive(Debug, Clone, Copy, PartialEq, Eq, Structural)]
pub struct AMFDate {
    pub milliseconds: u64,
    pub timezone: i16,
}

/// A decoded AMF0 value.
#[derive(Debug, PartialEq)]
pub enum AMFData {
    /// The bits of a double.
    Number(u64),
    Bool(bool),
    String(String),
    Object(Vec<AMFObject>),
    Null,
    Undefined,
    /// Index into a table of objects that the reader keeps.
    Reference(u16),
    Mixedarray(Vec<AMFObject>),
    ObjectEnd,
    Array(Vec<AMFData>),
    Date(AMFDate),
    LongString(String),
    /// The "unsupported" marker. The decoders reject it and never return it.
    Unsupported,
}

/// A named value: a member of an object or an associative array.
#[derive(Debug, PartialEq)]
pub struct AMFObject {
    pub name: String,
    pub data: AMFData,
}

/// The model of an `AMFData`.
pub enum AmfValue {
    Number(u64),
    Bool(bool),
    String(Seq<char>),
    Object(Seq<AmfPair>),
    Null,
    Undefined,
    Reference(u16),
    Mixedarray(Seq<AmfPair>),
    ObjectEnd,
    Array(Seq<AmfValue>),
    Date(AMFDate),
    LongString(Seq<char>),
    Unsupported,
}

/// The model of an `AMFObject`.
pub struct AmfPair {
    pub name: Seq<char>,
    pub data: AmfValue,
}

/// The model of a value.
pub open spec fn value_model(d: AMFData) -> AmfValue
    decreases d,
{
    match d {
        AMFData::Number(bits) => AmfValue::Number(bits),
        AMFData::Bool(b) => AmfValue::Bool(b),
        AMFData::String(s) => AmfValue::String(s@),
        AMFData::Object(v) => AmfValue::Object(
            Seq::new(
                v.len() as nat,
                |i: int|
                    if 0 <= i < v.len() {
                        AmfPair { name: v[i].name@, data: value_model(v[i].data) }
                    } else {
                        arbitrary()
                    },
            ),
        ),
        AMFData::Null => AmfValue::Null,
        AMFData::Undefined => AmfValue::Undefined,
        AMFData::Reference(r) => AmfValue::Reference(r),
        AMFData::Mixedarray(v) => AmfValue::Mixedarray(
            Seq::new(
                v.len() as nat,
                |i: int|
                    if 0 <= i < v.len() {
                        AmfPair { name: v[i].name@, data: value_model(v[i].data) }
                    } else {
                        arbitrary()
                    },
            ),
        ),
        AMFData::ObjectEnd => AmfValue::ObjectEnd,
        AMFData::Array(v) => AmfValue::Array(
            Seq::new(
                v.len() as nat,
                |i: int|
                    if 0 <= i < v.len() {
                        value_model(v[i])
                    } else {
                        arbitrary()
                    },
            ),
        ),
        AMFData::Date(d) => AmfValue::Date(d),
        AMFData::LongString(s) => AmfValue::LongString(s@),
        AMFData::Unsupported => AmfValue::Unsupported,
    }
}

impl View for AMFData {
    type V = AmfValue;

    open spec fn view(&self) -> AmfValue {
        value_model(*self)
    }
}

impl View for AMFObject {
    type V = AmfPair;

    open spec fn view(&self) -> AmfPair {
        AmfPair { name: self.name@, data: self.data@ }
    }
}

/// The models of a run of pairs, in order.
pub open spec fn pairs_model(v: Seq<AMFObject>) -> Seq<AmfPair> {
    Seq::new(v.len(), |i: int| v[i]@)
}

/// The models of a run of values, in order.
pub open spec fn values_model(v: Seq<AMFData>) -> Seq<AmfValue> {
    Seq::new(v.len(), |i: int| v[i]@)
}

/// A string whose length stands before it in `width` bytes, `len` being
/// that length: `Truncated` when the bytes end early, `Utf8Error` when the
/// payload is not UTF-8.
pub open spec fn spec_sized_string(bytes: Seq<u8>, width: int, len: int) -> Decoded<Seq<char>> {
    if bytes.len() < width + len {
        Err(FlvError::Truncated)
    } else if !valid_utf8(bytes.subrange(width, width + len)) {
        Err(FlvError::Utf8Error)
    } else {
        Ok((decode_utf8(bytes.subrange(width, width + len)), tail(bytes, width + len)))
    }
}

/// What `amf_string` returns on every input: a 16-bit length, then that many
/// bytes of UTF-8.
pub open spec fn spec_amf_string(bytes: Seq<u8>) -> Decoded<Seq<char>> {
    if bytes.len() < 2 {
        Err(FlvError::Truncated)
    } else {
        spec_sized_string(bytes, 2, spec_u16_be(bytes, 0))
    }
}

/// What `amf_long_string` returns on every input: a 32-bit length, then that
/// many bytes of UTF-8.
pub open spec fn spec_amf_long_string(bytes: Seq<u8>) -> Decoded<Seq<char>> {
    if bytes.len() < 4 {
        Err(FlvError::Truncated)
    } else {
        spec_sized_string(bytes, 4, spec_u32_be(bytes, 0))
    }
}

/// What `amf_date` returns on every input: eight bytes of double, then the
/// time zone as a signed 16-bit number.
pub open spec fn spec_amf_date(bytes: Seq<u8>) -> Decoded<AMFDate> {
    if bytes.len() < 10 {
        Err(FlvError::Truncated)
    } else {
        Ok(
            (
                AMFDate {
                    milliseconds: spec_u64_be(bytes, 0) as u64,
                    timezone: spec_signed(spec_u16_be(bytes, 8), 0x8000) as i16,
                },
                tail(bytes, 10),
            ),
        )
    }
}

/// The pairs `head` go in front of those that `r` holds.
pub open spec fn pairs_after(head: Seq<AmfPair>, r: Decoded<Seq<AmfPair>>) -> Decoded<
    Seq<AmfPair>,
> {
    match r {
        Ok((ps, rest)) => Ok((head + ps, rest)),
        Err(e) => Err(e),
    }
}

/// The values `head` go in front of those that `r` holds.
pub open spec fn values_after(head: Seq<AmfValue>, r: Decoded<Seq<AmfValue>>) -> Decoded<
    Seq<AmfValue>,
> {
    match r {
        Ok((vs, rest)) => Ok((head + vs, rest)),
        Err(e) => Err(e),
    }
}

/// The value at the start of `bytes`, where at most `depth` composite values
/// may be nested inside one another: the type byte decides the payload.
/// A composite value at depth zero is `NestingTooDeep`.
pub open spec fn spec_amf_value(bytes: Seq<u8>, depth: nat) -> Decoded<AmfValue>
    decreases depth, bytes.len(), 0nat,
{
    if bytes.len() < 1 {
        Err(FlvError::Truncated)
    } else {
        let code = bytes[0];
        let body = tail(bytes, 1);
        if code == AMF_DATA_TYPE_NUMBER {
            if body.len() < 8 {
                Err(FlvError::Truncated)
            } else {
                Ok((AmfValue::Number(spec_u64_be(body, 0) as u64), tail(body, 8)))
            }
        } else if code == AMF_DATA_TYPE_BOOL {
            if body.len() < 1 {
                Err(FlvError::Truncated)
            } else {
                Ok((AmfValue::Bool(body[0] != 0), tail(body, 1)))
            }
        } else if code == AMF_DATA_TYPE_STRING {
            match spec_amf_string(body) {
                Ok((s, rest)) => Ok((AmfValue::String(s), rest)),
                Err(e) => Err(e),
            }
        } else if code == AMF_DATA_TYPE_OBJECT {
            if depth == 0 {
                Err(FlvError::NestingTooDeep)
            } else {
                match spec_amf_pairs(body, (depth - 1) as nat) {
                    Ok((ps, rest)) => Ok((AmfValue::Object(ps), rest)),
                    Err(e) => Err(e),
                }
            }
        } else if code == AMF_DATA_TYPE_NULL {
            Ok((AmfValue::Null, body))
        } else if code == AMF_DATA_TYPE_UNDEFINED {
            Ok((AmfValue::Undefined, body))
        } else if code == AMF_DATA_TYPE_REFERENCE {
            if body.len() < 2 {
                Err(FlvError::Truncated)
            } else {
                Ok((AmfValue::Reference(spec_u16_be(body, 0) as u16), tail(body, 2)))
            }
        } else if code == AMF_DATA_TYPE_MIXEDARRAY {
            if depth == 0 {
                Err(FlvError::NestingTooDeep)
            } else {
                match spec_amf_ecma_array(body, (depth - 1) as nat) {
                    Ok((ps, rest)) => Ok((AmfValue::Mixedarray(ps), rest)),
                    Err(e) => Err(e),
                }
            }
        } else if code == AMF_DATA_TYPE_OBJECT_END {
            Ok((AmfValue::ObjectEnd, body))
        } else if code == AMF_DATA_TYPE_ARRAY {
            if depth == 0 {
                Err(FlvError::NestingTooDeep)
            } else {
                match spec_amf_strict_array(body, (depth - 1) as nat) {
                    Ok((vs, rest)) => Ok((AmfValue::Array(vs), rest)),
                    Err(e) => Err(e),
                }
            }
        } else if code == AMF_DATA_TYPE_DATE {
            match spec_amf_date(body) {
                Ok((d, rest)) => Ok((AmfValue::Date(d), rest)),
                Err(e) => Err(e),
            }
        } else if code == AMF_DATA_TYPE_LONG_STRING {
            match spec_amf_long_string(body) {
                Ok((s, rest)) => Ok((AmfValue::LongString(s), rest)),
                Err(e) => Err(e),
            }
        } else if code == AMF_DATA_TYPE_UNSUPPORTED {
            Err(FlvError::UnsupportedAMFType)
        } else {
            Err(FlvError::ReservedAMFType(code))
        }
    }
}

/// The pair at the start of `bytes`: a name, as a string without type byte,
/// then a value.
pub open spec fn spec_amf_object(bytes: Seq<u8>, depth: nat) -> Decoded<AmfPair>
    decreases depth, bytes.len(), 1nat,
{
    match spec_amf_string(bytes) {
        Err(e) => Err(e),
        Ok((name, rest)) => match spec_amf_value(rest, depth) {
            Err(e) => Err(e),
            Ok((data, rest)) => Ok((AmfPair { name, data }, rest)),
        },
    }
}

/// The run of pairs at the start of `bytes`, up to the first pair whose value
/// is the end marker. That pair closes the run and is not part of it; bytes
/// that end before it give the error of the pair that could not be read.
///
/// Every pair takes at least three bytes (see `lemma_pair_advances`), so the
/// test on the lengths below always succeeds; it is there to show that the
/// run ends.
pub open spec fn spec_amf_pairs(bytes: Seq<u8>, depth: nat) -> Decoded<Seq<AmfPair>>
    decreases depth, bytes.len(), 2nat,
{
    match spec_amf_object(bytes, depth) {
        Err(e) => Err(e),
        Ok((pair, rest)) => if pair.data is ObjectEnd {
            Ok((Seq::empty(), rest))
        } else if rest.len() < bytes.len() {
            pairs_after(seq![pair], spec_amf_pairs(rest, depth))
        } else {
            Err(FlvError::Truncated)
        },
    }
}

/// An associative array: four bytes of count, which is a hint and is not
/// held against the pairs, then a run of pairs as in an object.
pub open spec fn spec_amf_ecma_array(bytes: Seq<u8>, depth: nat) -> Decoded<Seq<AmfPair>>
    decreases depth, bytes.len(), 3nat,
{
    if bytes.len() < 4 {
        Err(FlvError::Truncated)
    } else {
        spec_amf_pairs(tail(bytes, 4), depth)
    }
}

/// The first `count` values at the start of `bytes`, one after the other.
///
/// Every value takes at least one byte (see `lemma_value_advances`), so the
/// test on the lengths below always succeeds.
pub open spec fn spec_amf_values(bytes: Seq<u8>, count: nat, depth: nat) -> Decoded<Seq<AmfValue>>
    decreases depth, bytes.len(), 1nat,
{
    if count == 0 {
        Ok((Seq::empty(), bytes))
    } else {
        match spec_amf_value(bytes, depth) {
            Err(e) => Err(e),
            Ok((v, rest)) => if rest.len() < bytes.len() {
                values_after(seq![v], spec_amf_values(rest, (count - 1) as nat, depth))
            } else {
                Err(FlvError::Truncated)
            },
        }
    }
}

/// A strict array: four bytes of count, then exactly that many values and no
/// end marker.
pub open spec fn spec_amf_strict_array(bytes: Seq<u8>, depth: nat) -> Decoded<Seq<AmfValue>>
    decreases depth, bytes.len(), 2nat,
{
    if bytes.len() < 4 {
        Err(FlvError::Truncated)
    } else {
        spec_amf_values(tail(bytes, 4), spec_u32_be(bytes, 0) as nat, depth)
    }
}

/// Script data: the string marker, then one pair, whose name is the name of
/// the metadata and whose value holds it.
pub open spec fn spec_amf_data(bytes: Seq<u8>, depth: nat) -> Decoded<AmfPair> {
    if bytes.len() < 1 {
        Err(FlvError::Truncated)
    } else if bytes[0] != AMF_DATA_TYPE_STRING {
        Err(FlvError::InvalidTopLevelType)
    } else {
        spec_amf_object(tail(bytes, 1), depth)
    }
}

impl View for AMFDate {
    type V = AMFDate;

    open spec fn view(&self) -> AMFDate {
        *self
    }
}

/// A decoded run of pairs, by its model.
pub open spec fn pairs_result(r: Result<(Vec<AMFObject>, &[u8]), FlvError>) -> Decoded<
    Seq<AmfPair>,
> {
    match r {
        Ok((v, rest)) => Ok((pairs_model(v@), rest@)),
        Err(e) => Err(e),
    }
}

/// A decoded run of values, by its model.
pub open spec fn values_result(r: Result<(Vec<AMFData>, &[u8]), FlvError>) -> Decoded<
    Seq<AmfValue>,
> {
    match r {
        Ok((v, rest)) => Ok((values_model(v@), rest@)),
        Err(e) => Err(e),
    }
}

/// The model of an object is the models of its pairs.
pub proof fn lemma_object_model(v: Vec<AMFObject>)
    ensures
        AMFData::Object(v)@ == AmfValue::Object(pairs_model(v@)),
        AMFData::Mixedarray(v)@ == AmfValue::Mixedarray(pairs_model(v@)),
{
    assert(AMFData::Object(v)@->Object_0 =~= pairs_model(v@));
    assert(AMFData::Mixedarray(v)@->Mixedarray_0 =~= pairs_model(v@));
}

/// The model of an array is the models of its values.
pub proof fn lemma_array_model(v: Vec<AMFData>)
    ensures
        AMFData::Array(v)@ == AmfValue::Array(values_model(v@)),
{
    assert(AMFData::Array(v)@->Array_0 =~= values_model(v@));
}

/// `String::from_utf8` of std: it succeeds exactly on well-formed UTF-8, and
/// the string it then returns holds the characters that the bytes encode.
#[verifier::external_body]
fn string_from_utf8(bytes: Vec<u8>) -> (r: Option<String>)
    ensures
        r.is_some() <==> valid_utf8(bytes@),
        r matches Some(s) ==> s@ == decode_utf8(bytes@),
{
    String::from_utf8(bytes).ok()
}

/// Reads the `len` bytes of a string that stand after the `width` bytes of
/// its length.
fn sized_string<'a>(input: &'a [u8], width: usize, len: usize) -> (r: Result<
    (String, &'a [u8]),
    FlvError,
>)
    requires
        width <= input@.len(),
    ensures
        view_result(r) == spec_sized_string(input@, width as int, len as int),
        r matches Ok((_, rest)) ==> rest@.len() + width + len == input@.len(),
{
    if input.len() - width < len {
        return Err(FlvError::Truncated);
    }
    let end: usize = width + len;
    match string_from_utf8(slice_to_vec(&input[width..end])) {
        Some(s) => Ok((s, &input[end..input.len()])),
        None => Err(FlvError::Utf8Error),
    }
}

/// Decodes a string without its type byte: a 16-bit length and the bytes.
pub fn amf_string<'a>(input: &'a [u8]) -> (r: Result<(String, &'a [u8]), FlvError>)
    ensures
        view_result(r) == spec_amf_string(input@),
        r matches Ok((_, rest)) ==> rest@.len() + 2 <= input@.len(),
{
    if input.len() < 2 {
        return Err(FlvError::Truncated);
    }
    let string_length: u16 = u16_be(input, 0);
    sized_string(input, 2, string_length as usize)
}

/// Decodes a long string without its type byte: a 32-bit length and the
/// bytes.
pub fn amf_long_string<'a>(input: &'a [u8]) -> (r: Result<(String, &'a [u8]), FlvError>)
    ensures
        view_result(r) == spec_amf_long_string(input@),
        r matches Ok((_, rest)) ==> rest@.len() + 4 <= input@.len(),
{
    if input.len() < 4 {
        return Err(FlvError::Truncated);
    }
    let string_length: u32 = u32_be(input, 0);
    sized_string(input, 4, string_length as usize)
}

/// Decodes a date without its type byte.
pub fn amf_date<'a>(input: &'a [u8]) -> (r: Result<(AMFDate, &'a [u8]), FlvError>)
    ensures
        view_result(r) == spec_amf_date(input@),
        r matches Ok((_, rest)) ==> rest@.len() + 10 == input@.len(),
{
    if input.len() < 10 {
        return Err(FlvError::Truncated);
    }
    let milliseconds: u64 = u64_be(input, 0);
    let timezone: i16 = signed16(u16_be(input, 8));
    Ok((AMFDate { milliseconds, timezone }, &input[10..input.len()]))
}

/// Decodes one value, type byte first, inside which at most `depth`
/// composite values may be nested.
pub fn amf_value_within<'a>(input: &'a [u8], depth: usize) -> (r: Result<
    (AMFData, &'a [u8]),
    FlvError,
>)
    ensures
        view_result(r) == spec_amf_value(input@, depth as nat),
        r matches Ok((_, rest)) ==> rest@.len() < input@.len(),
    decreases depth, 0nat,
{
    if input.len() < 1 {
        return Err(FlvError::Truncated);
    }
    let code: u8 = input[0];
    let body: &[u8] = &input[1..input.len()];
    match code {
        AMF_DATA_TYPE_NUMBER => {
            if body.len() < 8 {
                return Err(FlvError::Truncated);
            }
            Ok((AMFData::Number(u64_be(body, 0)), &body[8..body.len()]))
        },
        AMF_DATA_TYPE_BOOL => {
            if body.len() < 1 {
                return Err(FlvError::Truncated);
            }
            Ok((AMFData::Bool(body[0] != 0), &body[1..body.len()]))
        },
        AMF_DATA_TYPE_STRING => {
            match amf_string(body) {
                Ok((res, last)) => Ok((AMFData::String(res), last)),
                Err(e) => Err(e),
            }
        },
        AMF_DATA_TYPE_OBJECT => {
            if depth == 0 {
                return Err(FlvError::NestingTooDeep);
            }
            match amf_pairs_within(body, depth - 1) {
                Ok((res, last)) => {
                    proof {
                        lemma_object_model(res);
                    }
                    Ok((AMFData::Object(res), last))
                },
                Err(e) => Err(e),
            }
        },
        AMF_DATA_TYPE_NULL => Ok((AMFData::Null, body)),
        AMF_DATA_TYPE_UNDEFINED => Ok((AMFData::Undefined, body)),
        AMF_DATA_TYPE_REFERENCE => {
            if body.len() < 2 {
                return Err(FlvError::Truncated);
            }
            Ok((AMFData::Reference(u16_be(body, 0)), &body[2..body.len()]))
        },
        AMF_DATA_TYPE_MIXEDARRAY => {
            if depth == 0 {
                return Err(FlvError::NestingTooDeep);
            }
            match amf_ecma_array_within(body, depth - 1) {
                Ok((res, last)) => {
                    proof {
                        lemma_object_model(res);
                    }
                    Ok((AMFData::Mixedarray(res), last))
                },
                Err(e) => Err(e),
            }
        },
        AMF_DATA_TYPE_OBJECT_END => Ok((AMFData::ObjectEnd, body)),
        AMF_DATA_TYPE_ARRAY => {
            if depth == 0 {
                return Err(FlvError::NestingTooDeep);
            }
            match amf_strict_array_within(body, depth - 1) {
                Ok((res, last)) => {
                    proof {
                        lemma_array_model(res);
                    }
                    Ok((AMFData::Array(res), last))
                },
                Err(e) => Err(e),
            }
        },
        AMF_DATA_TYPE_DATE => {
            match amf_date(body) {
                Ok((date, last)) => Ok((AMFData::Date(date), last)),
                Err(e) => Err(e),
            }
        },
        AMF_DATA_TYPE_LONG_STRING => {
            match amf_long_string(body) {
                Ok((res, last)) => Ok((AMFData::LongString(res), last)),
                Err(e) => Err(e),
            }
        },
        AMF_DATA_TYPE_UNSUPPORTED => Err(FlvError::UnsupportedAMFType),
        other => Err(FlvError::ReservedAMFType(other)),
    }
}

/// Decodes one pair: a name and a value of at most `depth` levels.
pub fn amf_object_within<'a>(input: &'a [u8], depth: usize) -> (r: Result<
    (AMFObject, &'a [u8]),
    FlvError,
>)
    ensures
        view_result(r) == spec_amf_object(input@, depth as nat),
        r matches Ok((_, rest)) ==> rest@.len() + 3 <= input@.len(),
    decreases depth, 1nat,
{
    let (name, last) = match amf_string(input) {
        Ok(x) => x,
        Err(e) => return Err(e),
    };
    let (data, last) = match amf_value_within(last, depth) {
        Ok(x) => x,
        Err(e) => return Err(e),
    };
    Ok((AMFObject { name, data }, last))
}

/// Decodes pairs up to the one that holds the end marker.
pub fn amf_pairs_within<'a>(input: &'a [u8], depth: usize) -> (r: Result<
    (Vec<AMFObject>, &'a [u8]),
    FlvError,
>)
    ensures
        pairs_result(r) == spec_amf_pairs(input@, depth as nat),
        r matches Ok((_, rest)) ==> rest@.len() + 3 <= input@.len(),
    decreases depth, 2nat,
{
    let mut res: Vec<AMFObject> = Vec::new();
    let mut last: &[u8] = input;
    loop
        invariant
            last@.len() <= input@.len(),
            spec_amf_pairs(input@, depth as nat) == pairs_after(
                pairs_model(res@),
                spec_amf_pairs(last@, depth as nat),
            ),
        decreases last@.len(),
    {
        let ghost before = pairs_model(res@);
        let (obj, rest) = match amf_object_within(last, depth) {
            Ok(x) => x,
            Err(e) => return Err(e),
        };
        match obj.data {
            AMFData::ObjectEnd => {
                assert(before + Seq::<AmfPair>::empty() =~= before);
                return Ok((res, rest));
            },
            _ => {},
        }
        proof {
            let next = spec_amf_pairs(rest@, depth as nat);
            if let Ok((ps, end)) = next {
                assert(before + (seq![obj@] + ps) =~= before.push(obj@) + ps);
            }
            assert(pairs_model(res@.push(obj)) =~= before.push(obj@));
        }
        res.push(obj);
        last = rest;
    }
}

/// Decodes an associative array without its type byte.
pub fn amf_ecma_array_within<'a>(input: &'a [u8], depth: usize) -> (r: Result<
    (Vec<AMFObject>, &'a [u8]),
    FlvError,
>)
    ensures
        pairs_result(r) == spec_amf_ecma_array(input@, depth as nat),
        r matches Ok((_, rest)) ==> rest@.len() + 7 <= input@.len(),
    decreases depth, 3nat,
{
    if input.len() < 4 {
        return Err(FlvError::Truncated);
    }
    amf_pairs_within(&input[4..input.len()], depth)
}

/// Decodes a strict array without its type byte.
pub fn amf_strict_array_within<'a>(input: &'a [u8], depth: usize) -> (r: Result<
    (Vec<AMFData>, &'a [u8]),
    FlvError,
>)
    ensures
        values_result(r) == spec_amf_strict_array(input@, depth as nat),
        r matches Ok((_, rest)) ==> rest@.len() + 4 <= input@.len(),
    decreases depth, 1nat,
{
    if input.len() < 4 {
        return Err(FlvError::Truncated);
    }
    let arr_len: u32 = u32_be(input, 0);
    let mut idx: u32 = 0;
    let mut last: &[u8] = &input[4..input.len()];
    let mut res: Vec<AMFData> = Vec::new();
    while idx < arr_len
        invariant
            idx <= arr_len,
            input@.len() >= 4,
            arr_len == spec_u32_be(input@, 0),
            last@.len() + 4 <= input@.len(),
            spec_amf_strict_array(input@, depth as nat) == values_after(
                values_model(res@),
                spec_amf_values(last@, (arr_len - idx) as nat, depth as nat),
            ),
        decreases arr_len - idx,
    {
        let ghost before = values_model(res@);
        let (data, rest) = match amf_value_within(last, depth) {
            Ok(x) => x,
            Err(e) => return Err(e),
        };
        proof {
            let next = spec_amf_values(rest@, (arr_len - idx - 1) as nat, depth as nat);
            if let Ok((vs, end)) = next {
                assert(before + (seq![data@] + vs) =~= before.push(data@) + vs);
            }
            assert(values_model(res@.push(data)) =~= before.push(data@));
        }
        res.push(data);
        last = rest;
        idx = idx + 1;
    }
    assert(values_model(res@) + Seq::<AmfValue>::empty() =~= values_model(res@));
    Ok((res, last))
}

/// Decodes one value, type byte first.
pub fn amf_data_value<'a>(input: &'a [u8]) -> (r: Result<(AMFData, &'a [u8]), FlvError>)
    ensures
        view_result(r) == spec_amf_value(input@, AMF_MAX_DEPTH as nat),
{
    amf_value_within(input, AMF_MAX_DEPTH)
}

/// Decodes one pair: a name, as a string without type byte, and a value.
pub fn amf_object<'a>(input: &'a [u8]) -> (r: Result<(AMFObject, &'a [u8]), FlvError>)
    ensures
        view_result(r) == spec_amf_object(input@, AMF_MAX_DEPTH as nat),
{
    amf_object_within(input, AMF_MAX_DEPTH)
}

/// Decodes the pairs of an object, without the object's type byte, up to the
/// pair that holds the end marker.
pub fn amf_objects<'a>(input: &'a [u8]) -> (r: Result<(Vec<AMFObject>, &'a [u8]), FlvError>)
    ensures
        pairs_result(r) == spec_amf_pairs(input@, AMF_MAX_DEPTH as nat),
{
    amf_pairs_within(input, AMF_MAX_DEPTH)
}

/// Decodes an associative array without its type byte: the count, which is
/// not held against the pairs, and the pairs up to the end marker.
pub fn amf_ecma_array<'a>(input: &'a [u8]) -> (r: Result<(Vec<AMFObject>, &'a [u8]), FlvError>)
    ensures
        pairs_result(r) == spec_amf_ecma_array(input@, AMF_MAX_DEPTH as nat),
{
    amf_ecma_array_within(input, AMF_MAX_DEPTH)
}

/// Decodes a strict array without its type byte: the count and exactly that
/// many values.
pub fn amf_strict_array<'a>(input: &'a [u8]) -> (r: Result<(Vec<AMFData>, &'a [u8]), FlvError>)
    ensures
        values_result(r) == spec_amf_strict_array(input@, AMF_MAX_DEPTH as nat),
{
    amf_strict_array_within(input, AMF_MAX_DEPTH)
}

/// Decodes the script data of a tag: the string marker, the name of the
/// metadata and its value.
pub fn amf_data<'a>(input: &'a [u8]) -> (r: Result<(AMFObject, &'a [u8]), FlvError>)
    ensures
        view_result(r) == spec_amf_data(input@, AMF_MAX_DEPTH as nat),
{
    if input.len() < 1 {
        return Err(FlvError::Truncated);
    }
    if input[0] == AMF_DATA_TYPE_STRING {
        amf_object_within(&input[1..input.len()], AMF_MAX_DEPTH)
    } else {
        Err(FlvError::InvalidTopLevelType)
    }
}

} // verus!
