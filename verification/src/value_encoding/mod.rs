//! Value encoding turns a value into bytes and back. The bytes carry no type
//! tag, so reading them takes the type that was written; and they do not sort
//! as the values do.

pub mod envelope;
pub mod error;
pub mod layout;
pub mod theorems;
pub mod wire;

use crate::types::datum_model;
use crate::types::datum_wf;
use crate::types::datums_model;
use crate::types::DataType;
use crate::types::Datum;
use crate::types::DatumModel;
use crate::types::Decimal;
use crate::types::IntervalUnit;
use crate::types::NaiveDateTimeWrapper;
use crate::types::NaiveDateWrapper;
use crate::types::NaiveTimeWrapper;
use crate::types::OrderedF32;
use crate::types::OrderedF64;
use crate::types::ScalarImpl;
use crate::types::ScalarModel;
use crate::types::StructValue;
use crate::types::TypeModel;
use crate::types::types_model;
use crate::value_encoding::envelope::blobs_model;
use crate::value_encoding::envelope::decode_message;
use crate::value_encoding::envelope::encode_message;
use crate::value_encoding::error::ValueEncodingError;
use crate::value_encoding::layout::decode_datum;
use crate::value_encoding::layout::decode_fields;
use crate::value_encoding::layout::decode_length_prefixed;
use crate::value_encoding::layout::decode_scalar;
use crate::value_encoding::layout::encode_datum;
use crate::value_encoding::layout::encode_fields;
use crate::value_encoding::layout::encode_scalar;
use crate::value_encoding::layout::is_utf8_valid_up_to;
use crate::value_encoding::layout::lemma_decode_fields_error;
use crate::value_encoding::layout::lemma_encode_fields_error;
use crate::value_encoding::layout::lemma_utf8_valid_up_to_unique;
use crate::value_encoding::layout::length_prefixed;
use crate::value_encoding::wire::copy_to_slice;
use crate::value_encoding::wire::get_i16_le;
use crate::value_encoding::wire::get_i32_le;
use crate::value_encoding::wire::get_i64_le;
use crate::value_encoding::wire::get_u32_le;
use crate::value_encoding::wire::get_u64_le;
use crate::value_encoding::wire::get_u8;
use crate::value_encoding::wire::le_bytes;
use crate::value_encoding::wire::put_i16_le;
use crate::value_encoding::wire::put_i32_le;
use crate::value_encoding::wire::put_i64_le;
use crate::value_encoding::wire::put_slice;
use crate::value_encoding::wire::put_u32_le;
use crate::value_encoding::wire::put_u64_le;
use crate::value_encoding::wire::put_u8;
use crate::value_encoding::wire::remaining;
use crate::value_encoding::wire::signed_le_bytes;
use itertools::Itertools;
use vstd::prelude::*;
use vstd::utf8::decode_utf8;
use vstd::utf8::valid_utf8;

verus! {

/// Serializes a value that may be absent into the bytes of its cell: none at
/// all where it is absent.
pub fn serialize_cell(cell: &Datum) -> (r: Result<Vec<u8>, ValueEncodingError>)
    ensures
        match encode_datum(datum_model(*cell)) {
            Ok(bytes) => r matches Ok(buf) && buf@ == bytes,
            Err(e) => r == Err::<Vec<u8>, ValueEncodingError>(e),
        },
        r is Ok ==> datum_wf(datum_model(*cell)),
    decreases cell, 1nat,
{
    let mut buf: Vec<u8> = Vec::new();
    match cell {
        Some(datum) => {
            match serialize_value(datum, &mut buf) {
                Ok(()) => {},
                Err(e) => {
                    return Err(e);
                },
            }
        },
        None => {},
    }
    Ok(buf)
}

/// Appends the bytes of `value` to `buf`, which it leaves as it was where the
/// value has no encoding.
pub fn serialize_value(value: &ScalarImpl, buf: &mut Vec<u8>) -> (r: Result<
    (),
    ValueEncodingError,
>)
    ensures
        match encode_scalar(value@) {
            Ok(bytes) => r is Ok && final(buf)@ == old(buf)@ + bytes,
            Err(e) => r == Err::<(), ValueEncodingError>(e) && final(buf)@ == old(buf)@,
        },
        r is Ok ==> value@.wf(),
    decreases value, 0nat,
{
    match value {
        ScalarImpl::Int16(v) => {
            put_i16_le(buf, *v);
            Ok(())
        },
        ScalarImpl::Int32(v) => {
            put_i32_le(buf, *v);
            Ok(())
        },
        ScalarImpl::Int64(v) => {
            put_i64_le(buf, *v);
            Ok(())
        },
        ScalarImpl::Float32(v) => {
            put_u32_le(buf, v.to_bits());
            Ok(())
        },
        ScalarImpl::Float64(v) => {
            put_u64_le(buf, v.to_bits());
            Ok(())
        },
        ScalarImpl::Utf8(v) => serialize_str(v.as_str().as_bytes(), buf),
        ScalarImpl::Bool(v) => {
            put_u8(
                buf,
                if *v {
                    1
                } else {
                    0
                },
            );
            assert(buf@ =~= old(buf)@ + seq![if *v {
                1u8
            } else {
                0u8
            }]);
            Ok(())
        },
        ScalarImpl::Decimal(v) => {
            proof {
                v.lemma_view_len();
            }
            serialize_decimal(v, buf);
            Ok(())
        },
        ScalarImpl::Interval(v) => {
            serialize_interval(v, buf);
            Ok(())
        },
        ScalarImpl::NaiveDate(v) => {
            serialize_naivedate(v.num_days_from_ce(), buf);
            Ok(())
        },
        ScalarImpl::NaiveDateTime(v) => {
            serialize_naivedatetime(v.timestamp(), v.timestamp_subsec_nanos(), buf);
            Ok(())
        },
        ScalarImpl::NaiveTime(v) => {
            serialize_naivetime(v.num_seconds_from_midnight(), v.nanosecond(), buf);
            Ok(())
        },
        ScalarImpl::Struct(v) => serialize_struct(v, buf),
        ScalarImpl::List(_) => Err(ValueEncodingError::UnsupportedType),
    }
}

/// Appends a struct value: the length of its message in four bytes, then the
/// message, which holds one blob for each field.
pub fn serialize_struct(value: &StructValue, buf: &mut Vec<u8>) -> (r: Result<
    (),
    ValueEncodingError,
>)
    ensures
        match encode_scalar(ScalarModel::Struct(value@)) {
            Ok(bytes) => r is Ok && final(buf)@ == old(buf)@ + bytes,
            Err(e) => r == Err::<(), ValueEncodingError>(e) && final(buf)@ == old(buf)@,
        },
        r is Ok ==> ScalarModel::Struct(value@).wf(),
    decreases value, 2nat,
{
    let fields = value.fields();
    let mut blobs: Vec<Vec<u8>> = Vec::new();
    let mut i: usize = 0;
    assert(blobs_model(blobs@) =~= Seq::<Seq<u8>>::empty());
    while i < fields.len()
        invariant
            i <= fields.len(),
            *fields == value.fields,
            encode_fields(value@, i as nat) == Ok::<Seq<Seq<u8>>, ValueEncodingError>(
                blobs_model(blobs@),
            ),
            forall|k: int| 0 <= k < i ==> datum_wf(#[trigger] value@[k]),
        decreases fields.len() - i,
    {
        let ghost before = blobs_model(blobs@);
        match serialize_cell(&fields[i]) {
            Ok(blob) => {
                blobs.push(blob);
                assert(blobs_model(blobs@) =~= before.push(blob@));
            },
            Err(e) => {
                proof {
                    lemma_encode_fields_error(value@, (i + 1) as nat, value@.len());
                }
                return Err(e);
            },
        }
        i += 1;
    }
    serialize_str(encode_message(&blobs).as_slice(), buf)
}

/// The length of a payload as it is written in front of the payload: an
/// error where it does not fit four bytes.
pub fn length_prefix(len: usize) -> (r: Result<u32, ValueEncodingError>)
    ensures
        len <= u32::MAX ==> r == Ok::<u32, ValueEncodingError>(len as u32),
        len > u32::MAX ==> r == Err::<u32, ValueEncodingError>(ValueEncodingError::LengthOverflow),
{
    if len > u32::MAX as usize {
        Err(ValueEncodingError::LengthOverflow)
    } else {
        Ok(len as u32)
    }
}

/// Appends a payload behind its length in four little-endian bytes.
pub fn serialize_str(bytes: &[u8], buf: &mut Vec<u8>) -> (r: Result<(), ValueEncodingError>)
    ensures
        match length_prefixed(bytes@) {
            Ok(framed) => r is Ok && final(buf)@ == old(buf)@ + framed,
            Err(e) => r == Err::<(), ValueEncodingError>(e) && final(buf)@ == old(buf)@,
        },
{
    let len = length_prefix(bytes.len())?;
    put_u32_le(buf, len);
    put_slice(buf, bytes);
    assert(buf@ =~= old(buf)@ + (le_bytes(bytes@.len(), 4) + bytes@));
    Ok(())
}

/// Appends the months, the days and the milliseconds of an interval.
pub fn serialize_interval(interval: &IntervalUnit, buf: &mut Vec<u8>)
    ensures
        final(buf)@ == old(buf)@ + (signed_le_bytes(interval@.0 as int, 4) + signed_le_bytes(
            interval@.1 as int,
            4,
        ) + signed_le_bytes(interval@.2 as int, 8)),
{
    put_i32_le(buf, interval.get_months());
    put_i32_le(buf, interval.get_days());
    put_i64_le(buf, interval.get_ms());
    assert(buf@ =~= old(buf)@ + (signed_le_bytes(interval@.0 as int, 4) + signed_le_bytes(
        interval@.1 as int,
        4,
    ) + signed_le_bytes(interval@.2 as int, 8)));
}

/// Appends a date by its day number.
pub fn serialize_naivedate(days: i32, buf: &mut Vec<u8>)
    ensures
        final(buf)@ == old(buf)@ + signed_le_bytes(days as int, 4),
{
    put_i32_le(buf, days);
}

/// Appends a timestamp by its seconds and nanoseconds.
pub fn serialize_naivedatetime(secs: i64, nsecs: u32, buf: &mut Vec<u8>)
    ensures
        final(buf)@ == old(buf)@ + (signed_le_bytes(secs as int, 8) + le_bytes(nsecs as nat, 4)),
{
    put_i64_le(buf, secs);
    put_u32_le(buf, nsecs);
    assert(buf@ =~= old(buf)@ + (signed_le_bytes(secs as int, 8) + le_bytes(nsecs as nat, 4)));
}

/// Appends a time of day by its seconds from midnight and nanoseconds.
pub fn serialize_naivetime(secs: u32, nano: u32, buf: &mut Vec<u8>)
    ensures
        final(buf)@ == old(buf)@ + (le_bytes(secs as nat, 4) + le_bytes(nano as nat, 4)),
{
    put_u32_le(buf, secs);
    put_u32_le(buf, nano);
    assert(buf@ =~= old(buf)@ + (le_bytes(secs as nat, 4) + le_bytes(nano as nat, 4)));
}

/// Appends the sixteen bytes of a decimal.
pub fn serialize_decimal(decimal: &Decimal, buf: &mut Vec<u8>)
    ensures
        final(buf)@ == old(buf)@ + decimal@,
{
    let bytes = decimal.unordered_serialize();
    put_slice(buf, bytes.as_slice());
}

/// Whether `needed` bytes remain to be read.
fn ensure_remaining(data: &&[u8], needed: usize) -> (r: Result<(), ValueEncodingError>)
    ensures
        data@.len() >= needed ==> r is Ok,
        data@.len() < needed ==> r == Err::<(), ValueEncodingError>(ValueEncodingError::Truncated),
{
    if remaining(data) < needed {
        Err(ValueEncodingError::Truncated)
    } else {
        Ok(())
    }
}

/// Reads a boolean: one byte, `1` for true and `0` for false.
pub fn deserialize_bool(data: &mut &[u8]) -> (r: Result<bool, ValueEncodingError>)
    ensures
        match decode_scalar(old(data)@, TypeModel::Boolean) {
            Ok((value, taken)) => r matches Ok(v) && ScalarModel::Bool(v) == value && final(data)@
                == old(data)@.skip(taken as int),
            Err(e) => r == Err::<bool, ValueEncodingError>(e) && final(data)@ == old(data)@,
        },
{
    ensure_remaining(data, 1)?;
    let start: &[u8] = *data;
    match get_u8(data) {
        1 => Ok(true),
        0 => Ok(false),
        value => {
            *data = start;
            Err(ValueEncodingError::InvalidBoolEncoding(value))
        },
    }
}

/// Reads an interval: months and days in four bytes each, milliseconds in
/// eight.
pub fn deserialize_interval(data: &mut &[u8]) -> (r: Result<IntervalUnit, ValueEncodingError>)
    ensures
        match decode_scalar(old(data)@, TypeModel::Interval) {
            Ok((value, taken)) => r matches Ok(v) && (ScalarModel::Interval {
                months: v@.0,
                days: v@.1,
                ms: v@.2,
            }) == value && final(data)@ == old(data)@.skip(taken as int),
            Err(e) => r == Err::<IntervalUnit, ValueEncodingError>(e) && final(data)@ == old(data)@,
        },
{
    ensure_remaining(data, 16)?;
    let ghost bytes = data@.take(16);
    let months = get_i32_le(data);
    let days = get_i32_le(data);
    let ms = get_i64_le(data);
    proof {
        assert(old(data)@.take(4) =~= bytes.subrange(0, 4));
        assert(old(data)@.skip(4).take(4) =~= bytes.subrange(4, 8));
        assert(old(data)@.skip(4).skip(4).take(8) =~= bytes.subrange(8, 16));
        assert(old(data)@.skip(4).skip(4).skip(8) =~= old(data)@.skip(16));
    }
    Ok(IntervalUnit::new(months, days, ms))
}

/// Reads a time of day: seconds from midnight and nanoseconds, four bytes
/// each.
pub fn deserialize_naivetime(data: &mut &[u8]) -> (r: Result<
    NaiveTimeWrapper,
    ValueEncodingError,
>)
    ensures
        match decode_scalar(old(data)@, TypeModel::Time) {
            Ok((value, taken)) => r matches Ok(v) && (ScalarModel::NaiveTime {
                midnight_secs: v@.0,
                nano: v@.1,
            }) == value && final(data)@ == old(data)@.skip(taken as int),
            Err(e) => r == Err::<NaiveTimeWrapper, ValueEncodingError>(e)
                && final(data)@ == old(data)@,
        },
{
    ensure_remaining(data, 8)?;
    let start: &[u8] = *data;
    let ghost bytes = data@.take(8);
    let secs = get_u32_le(data);
    let nano = get_u32_le(data);
    proof {
        assert(old(data)@.take(4) =~= bytes.subrange(0, 4));
        assert(old(data)@.skip(4).take(4) =~= bytes.subrange(4, 8));
        assert(old(data)@.skip(4).skip(4) =~= old(data)@.skip(8));
    }
    match NaiveTimeWrapper::new_with_secs_nano_value_encoding(secs, nano) {
        Ok(time) => Ok(time),
        Err(e) => {
            *data = start;
            Err(e)
        },
    }
}

/// Reads a timestamp: seconds in eight bytes, nanoseconds in four.
pub fn deserialize_naivedatetime(data: &mut &[u8]) -> (r: Result<
    NaiveDateTimeWrapper,
    ValueEncodingError,
>)
    ensures
        match decode_scalar(old(data)@, TypeModel::Timestamp) {
            Ok((value, taken)) => r matches Ok(v) && (ScalarModel::NaiveDateTime {
                secs: v@.0,
                nsecs: v@.1,
            }) == value && final(data)@ == old(data)@.skip(taken as int),
            Err(e) => r == Err::<NaiveDateTimeWrapper, ValueEncodingError>(e) && final(data)@
                == old(data)@,
        },
{
    ensure_remaining(data, 12)?;
    let start: &[u8] = *data;
    let ghost bytes = data@.take(12);
    let secs = get_i64_le(data);
    let nsecs = get_u32_le(data);
    proof {
        assert(old(data)@.take(8) =~= bytes.subrange(0, 8));
        assert(old(data)@.skip(8).take(4) =~= bytes.subrange(8, 12));
        assert(old(data)@.skip(8).skip(4) =~= old(data)@.skip(12));
    }
    match NaiveDateTimeWrapper::new_with_secs_nsecs_value_encoding(secs, nsecs) {
        Ok(stamp) => Ok(stamp),
        Err(e) => {
            *data = start;
            Err(e)
        },
    }
}

/// Reads a date: its day number in four bytes.
pub fn deserialize_naivedate(data: &mut &[u8]) -> (r: Result<
    NaiveDateWrapper,
    ValueEncodingError,
>)
    ensures
        match decode_scalar(old(data)@, TypeModel::Date) {
            Ok((value, taken)) => r matches Ok(v) && (ScalarModel::NaiveDate { days: v@ })
                == value && final(data)@ == old(data)@.skip(taken as int),
            Err(e) => r == Err::<NaiveDateWrapper, ValueEncodingError>(e)
                && final(data)@ == old(data)@,
        },
{
    ensure_remaining(data, 4)?;
    let start: &[u8] = *data;
    let days = get_i32_le(data);
    match NaiveDateWrapper::new_with_days_value_encoding(days) {
        Ok(date) => Ok(date),
        Err(e) => {
            *data = start;
            Err(e)
        },
    }
}

/// Reads a decimal: sixteen bytes, taken as they are.
pub fn deserialize_decimal(data: &mut &[u8]) -> (r: Result<Decimal, ValueEncodingError>)
    ensures
        match decode_scalar(old(data)@, TypeModel::Decimal) {
            Ok((value, taken)) => r matches Ok(v) && ScalarModel::Decimal(v@) == value
                && final(data)@ == old(data)@.skip(taken as int),
            Err(e) => r == Err::<Decimal, ValueEncodingError>(e) && final(data)@ == old(data)@,
        },
{
    ensure_remaining(data, 16)?;
    let mut bytes = [0u8;16];
    copy_to_slice(data, &mut bytes);
    Ok(Decimal::unordered_deserialize(bytes))
}

/// `String::from_utf8`: the text that the bytes hold, exactly where they are
/// UTF-8. Of its error this keeps `valid_up_to`, which std documents as the
/// greatest length of a prefix of the bytes that is UTF-8.
#[verifier::external_body]
fn string_from_utf8(bytes: Vec<u8>) -> (r: Result<String, usize>)
    ensures
        match r {
            Ok(text) => valid_utf8(bytes@) && text@ == decode_utf8(bytes@),
            Err(valid_up_to) => !valid_utf8(bytes@) && is_utf8_valid_up_to(
                bytes@,
                valid_up_to as nat,
            ),
        },
{
    String::from_utf8(bytes).map_err(|e| e.utf8_error().valid_up_to())
}

/// `itertools::Itertools::zip_eq` on two vectors: the pairs of their items
/// at equal places. The call panics where one vector is longer
/// than the other.
#[verifier::external_body]
fn zip_eq<'a, A, B>(left: &'a Vec<A>, right: &'a Vec<B>) -> (pairs: Vec<(&'a A, &'a B)>)
    requires
        left@.len() == right@.len(),
    ensures
        pairs@.len() == left@.len(),
        forall|i: int|
            0 <= i < pairs@.len() ==> *(#[trigger] pairs@[i]).0 == left@[i] && *pairs@[i].1
                == right@[i],
{
    left.iter().zip_eq(right.iter()).collect()
}

/// Reads the payload behind a length of four bytes.
fn deserialize_payload(data: &mut &[u8]) -> (r: Result<Vec<u8>, ValueEncodingError>)
    ensures
        match decode_length_prefixed(old(data)@) {
            Ok(payload) => r matches Ok(bytes) && bytes@ == payload
                && final(data)@ == old(data)@.skip(4 + payload.len() as int),
            Err(e) => r == Err::<Vec<u8>, ValueEncodingError>(e) && final(data)@ == old(data)@,
        },
{
    ensure_remaining(data, 4)?;
    let start: &[u8] = *data;
    let len = get_u32_le(data) as usize;
    if remaining(data) < len {
        *data = start;
        return Err(ValueEncodingError::Truncated);
    }
    let mut bytes: Vec<u8> = vec![0u8; len];
    copy_to_slice(data, bytes.as_mut_slice());
    proof {
        assert(old(data)@.skip(4).take(len as int) =~= old(data)@.subrange(4, 4 + len as int));
        assert(old(data)@.skip(4).skip(len as int) =~= old(data)@.skip(4 + len as int));
    }
    Ok(bytes)
}

/// Reads a text: its length in four bytes, then that many bytes of UTF-8.
pub fn deserialize_str(data: &mut &[u8]) -> (r: Result<String, ValueEncodingError>)
    ensures
        match decode_scalar(old(data)@, TypeModel::Varchar) {
            Ok((value, taken)) => r matches Ok(v) && ScalarModel::Utf8(v@) == value
                && final(data)@ == old(data)@.skip(taken as int),
            Err(e) => r == Err::<String, ValueEncodingError>(e) && final(data)@ == old(data)@,
        },
{
    let start: &[u8] = *data;
    let bytes = deserialize_payload(data)?;
    let ghost payload = bytes@;
    match string_from_utf8(bytes) {
        Ok(text) => Ok(text),
        Err(valid_up_to) => {
            proof {
                lemma_utf8_valid_up_to_unique(payload, valid_up_to as nat);
            }
            *data = start;
            Err(ValueEncodingError::InvalidUtf8 { valid_up_to })
        },
    }
}

/// Reads a struct value of the declared field types: the length of its
/// message in four bytes, then the message, whose blobs are read as the
/// fields, each as a cell of its own.
#[verifier::loop_isolation(false)]
pub fn deserialize_struct(data_type: &Vec<DataType>, data: &mut &[u8]) -> (r: Result<
    StructValue,
    ValueEncodingError,
>)
    ensures
        match decode_scalar(
            old(data)@,
            (TypeModel::Struct { fields: types_model(data_type@) }),
        ) {
            Ok((value, taken)) => r matches Ok(v) && ScalarModel::Struct(v@) == value
                && final(data)@ == old(data)@.skip(taken as int),
            Err(e) => r == Err::<StructValue, ValueEncodingError>(e) && final(data)@ == old(data)@,
        },
    decreases data_type, 2nat,
{
    let start: &[u8] = *data;
    let bytes = deserialize_payload(data)?;
    let body = match decode_message(bytes.as_slice()) {
        Ok(body) => body,
        Err(e) => {
            *data = start;
            return Err(e);
        },
    };
    if body.len() != data_type.len() {
        *data = start;
        return Err(
            ValueEncodingError::FieldCountMismatch {
                expected: data_type.len(),
                actual: body.len(),
            },
        );
    }
    let ghost blobs = blobs_model(body@);
    let ghost after = data@;
    let pairs = zip_eq(&body, data_type);
    let mut fields: Vec<Datum> = Vec::new();
    let mut i: usize = 0;
    assert(datums_model(fields@) =~= Seq::<DatumModel>::empty());
    while i < pairs.len()
        invariant
            i <= pairs.len(),
            data@ == after,
            decode_fields(blobs, types_model(data_type@), i as nat) == Ok::<
                Seq<DatumModel>,
                ValueEncodingError,
            >(datums_model(fields@)),
        decreases pairs.len() - i,
    {
        let ghost before = datums_model(fields@);
        let (blob, ty) = pairs[i];
        let mut cell: &[u8] = blob.as_slice();
        assert(cell@ == blobs[i as int]);
        match deserialize_cell(&mut cell, ty) {
            Ok(datum) => {
                let ghost model = datum_model(datum);
                fields.push(datum);
                assert(datums_model(fields@) =~= before.push(model));
            },
            Err(e) => {
                proof {
                    lemma_decode_fields_error(
                        blobs,
                        types_model(data_type@),
                        (i + 1) as nat,
                        data_type@.len(),
                    );
                }
                *data = start;
                return Err(e);
            },
        }
        i += 1;
    }
    Ok(StructValue::new(fields))
}

/// Reads a value of type `ty`, which is there: the bytes that the type's
/// layout takes, and no others.
pub fn deserialize_value(ty: &DataType, data: &mut &[u8]) -> (r: Result<Datum, ValueEncodingError>)
    ensures
        match decode_scalar(old(data)@, ty@) {
            Ok((value, taken)) => r matches Ok(Some(v)) && v@ == value
                && final(data)@ == old(data)@.skip(taken as int),
            Err(e) => r == Err::<Datum, ValueEncodingError>(e) && final(data)@ == old(data)@,
        },
    decreases ty, 0nat,
{
    Ok(
        Some(
            match ty {
                DataType::Int16 => {
                    ensure_remaining(data, 2)?;
                    ScalarImpl::Int16(get_i16_le(data))
                },
                DataType::Int32 => {
                    ensure_remaining(data, 4)?;
                    ScalarImpl::Int32(get_i32_le(data))
                },
                DataType::Int64 => {
                    ensure_remaining(data, 8)?;
                    ScalarImpl::Int64(get_i64_le(data))
                },
                DataType::Float32 => {
                    ensure_remaining(data, 4)?;
                    ScalarImpl::Float32(OrderedF32::from_bits(get_u32_le(data)))
                },
                DataType::Float64 => {
                    ensure_remaining(data, 8)?;
                    ScalarImpl::Float64(OrderedF64::from_bits(get_u64_le(data)))
                },
                DataType::Varchar => ScalarImpl::Utf8(deserialize_str(data)?),
                DataType::Boolean => ScalarImpl::Bool(deserialize_bool(data)?),
                DataType::Decimal => ScalarImpl::Decimal(deserialize_decimal(data)?),
                DataType::Interval => ScalarImpl::Interval(deserialize_interval(data)?),
                DataType::Time => ScalarImpl::NaiveTime(deserialize_naivetime(data)?),
                DataType::Timestamp => ScalarImpl::NaiveDateTime(deserialize_naivedatetime(data)?),
                DataType::Timestampz => {
                    ensure_remaining(data, 8)?;
                    ScalarImpl::Int64(get_i64_le(data))
                },
                DataType::Date => ScalarImpl::NaiveDate(deserialize_naivedate(data)?),
                DataType::Struct { fields } => {
                    ScalarImpl::Struct(deserialize_struct(fields, data)?)
                },
                DataType::List { .. } => {
                    return Err(ValueEncodingError::UnsupportedType);
                },
            },
        ),
    )
}

/// Deserializes the bytes of a cell into a value of type `ty` that may be
/// absent: it is where there are no bytes. The slice is moved past what was
/// read, and stays where it was on an error.
pub fn deserialize_cell(data: &mut &[u8], ty: &DataType) -> (r: Result<Datum, ValueEncodingError>)
    ensures
        match decode_datum(old(data)@, ty@) {
            Ok((datum, taken)) => r matches Ok(v) && datum_model(v) == datum && final(data)@
                == old(data)@.skip(taken as int),
            Err(e) => r == Err::<Datum, ValueEncodingError>(e) && final(data)@ == old(data)@,
        },
    decreases ty, 1nat,
{
    if remaining(data) < 1 {
        assert(data@.skip(0) =~= data@);
        return Ok(None);
    }
    deserialize_value(ty, data)
}

} // verus!
