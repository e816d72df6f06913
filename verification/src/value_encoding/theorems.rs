//! What holds of the layout, whatever the value and whatever the bytes.

use crate::types::naive_datetime_exists;
use crate::types::naive_time_valid;
use crate::types::DatumModel;
use crate::types::ScalarModel;
use crate::types::TypeModel;
use crate::value_encoding::envelope::lemma_message_bytes_len;
use crate::value_encoding::envelope::lemma_parse_message_of_bytes;
use crate::value_encoding::envelope::message_bytes;
use crate::value_encoding::envelope::parse_message;
use crate::value_encoding::error::ValueEncodingError;
use crate::value_encoding::layout::decode_datum;
use crate::value_encoding::layout::decode_fields;
use crate::value_encoding::layout::decode_length_prefixed;
use crate::value_encoding::layout::decode_scalar;
use crate::value_encoding::layout::encode_datum;
use crate::value_encoding::layout::encode_fields;
use crate::value_encoding::layout::encode_scalar;
use crate::value_encoding::layout::fixed_width;
use crate::value_encoding::layout::lemma_decode_fields_index;
use crate::value_encoding::layout::lemma_decode_fields_len;
use crate::value_encoding::layout::lemma_decode_length_prefixed;
use crate::value_encoding::layout::lemma_encode_fields_index;
use crate::value_encoding::layout::lemma_encode_fields_len;
use crate::value_encoding::layout::length_prefixed;
use crate::value_encoding::layout::utf8_valid_up_to;
use crate::value_encoding::wire::le_bytes;
use crate::value_encoding::wire::le_value;
use crate::value_encoding::wire::lemma_le_bytes_len;
use crate::value_encoding::wire::lemma_le_bytes_of_value;
use crate::value_encoding::wire::lemma_le_value_bound;
use crate::value_encoding::wire::lemma_le_value_of_bytes;
use crate::value_encoding::wire::lemma_radix_pow_values;
use crate::value_encoding::wire::lemma_signed_le_bytes_len;
use crate::value_encoding::wire::lemma_signed_le_bytes_of_value;
use crate::value_encoding::wire::lemma_signed_le_value_of_bytes;
use crate::value_encoding::wire::signed_le_bytes;
use crate::value_encoding::wire::signed_le_value;
use vstd::prelude::*;
use vstd::utf8::encode_utf8;
use vstd::utf8::valid_utf8;

verus! {

/// An absent value is written as no bytes at all, and no bytes at all are
/// read as an absent value, whatever the type.
pub proof fn lemma_null_identity(ty: TypeModel)
    ensures
        encode_datum(None) == Ok::<Seq<u8>, ValueEncodingError>(Seq::empty()),
        decode_datum(Seq::empty(), ty) == Ok::<(DatumModel, nat), ValueEncodingError>((None, 0)),
{
}

/// A value that is present is written as at least one byte.
pub proof fn lemma_encoding_not_empty(value: ScalarModel)
    requires
        value.wf(),
    ensures
        encode_scalar(value) matches Ok(bytes) ==> bytes.len() >= 1,
{
    match value {
        ScalarModel::Int16(v) => {
            lemma_signed_le_bytes_len(v as int, 2);
        },
        ScalarModel::Int32(v) => {
            lemma_signed_le_bytes_len(v as int, 4);
        },
        ScalarModel::Int64(v) => {
            lemma_signed_le_bytes_len(v as int, 8);
        },
        ScalarModel::Float32(bits) => {
            lemma_le_bytes_len(bits as nat, 4);
        },
        ScalarModel::Float64(bits) => {
            lemma_le_bytes_len(bits as nat, 8);
        },
        ScalarModel::Interval { months, days, ms } => {
            lemma_signed_le_bytes_len(months as int, 4);
        },
        ScalarModel::NaiveDate { days } => {
            lemma_signed_le_bytes_len(days as int, 4);
        },
        ScalarModel::NaiveDateTime { secs, nsecs } => {
            lemma_signed_le_bytes_len(secs as int, 8);
        },
        ScalarModel::NaiveTime { midnight_secs, nano } => {
            lemma_le_bytes_len(midnight_secs as nat, 4);
        },
        ScalarModel::Utf8(chars) => {
            lemma_le_bytes_len(encode_utf8(chars).len(), 4);
        },
        ScalarModel::Struct(fields) => {
            if encode_fields(fields, fields.len()) is Ok {
                let blobs = encode_fields(fields, fields.len()).unwrap();
                lemma_le_bytes_len(message_bytes(blobs).len(), 4);
            }
        },
        _ => {},
    }
}

/// Writing a value and reading the bytes as the value's type gives the value
/// back, and takes exactly the bytes that were written, whatever follows
/// them.
pub proof fn lemma_round_trip(value: ScalarModel, ty: TypeModel, rest: Seq<u8>)
    requires
        value.wf(),
        value.has_type(ty),
        encode_scalar(value) is Ok,
    ensures
        decode_scalar(encode_scalar(value).unwrap() + rest, ty) == Ok::<
            (ScalarModel, nat),
            ValueEncodingError,
        >((value, encode_scalar(value).unwrap().len())),
    decreases value, 0nat,
{
    match value {
        ScalarModel::Utf8(chars) => {
            lemma_round_trip_text(chars, rest);
        },
        ScalarModel::Bool(_) | ScalarModel::Decimal(_) => {
            lemma_round_trip_bytes(value, ty, rest);
        },
        ScalarModel::Interval { months, days, ms } => {
            lemma_round_trip_interval(months, days, ms, rest);
        },
        ScalarModel::NaiveDateTime { secs, nsecs } => {
            lemma_round_trip_timestamp(secs, nsecs, rest);
        },
        ScalarModel::NaiveTime { midnight_secs, nano } => {
            lemma_round_trip_time(midnight_secs, nano, rest);
        },
        ScalarModel::Struct(fields) => {
            assert forall|i: int| 0 <= i < fields.len() implies (#[trigger] fields[i] matches Some(
                field,
            ) ==> field.wf() && field.has_type(ty->fields[i])) by {}
            lemma_round_trip_struct(fields, ty, rest);
        },
        ScalarModel::List(_) => {},
        _ => {
            lemma_round_trip_number(value, ty, rest);
        },
    }
}

/// Writing a value that may be absent and reading all the bytes as a cell of
/// the value's type gives the value back and leaves no byte unread.
pub proof fn lemma_round_trip_datum(datum: DatumModel, ty: TypeModel)
    requires
        datum matches Some(value) ==> value.wf() && value.has_type(ty),
        encode_datum(datum) is Ok,
    ensures
        decode_datum(encode_datum(datum).unwrap(), ty) == Ok::<
            (DatumModel, nat),
            ValueEncodingError,
        >((datum, encode_datum(datum).unwrap().len())),
    decreases datum, 1nat,
{
    match datum {
        Some(value) => {
            let bytes = encode_scalar(value).unwrap();
            lemma_encoding_not_empty(value);
            lemma_round_trip(value, ty, Seq::empty());
            assert(bytes + Seq::<u8>::empty() =~= bytes);
        },
        None => {},
    }
}

/// Writing a struct value and reading the bytes with the schema of its
/// fields gives every field back at its place, whatever follows the bytes.
pub proof fn lemma_round_trip_struct(fields: Seq<DatumModel>, ty: TypeModel, rest: Seq<u8>)
    requires
        ty is Struct,
        ty->fields.len() == fields.len(),
        forall|i: int|
            0 <= i < fields.len() ==> (#[trigger] fields[i] matches Some(field) ==> field.wf()
                && field.has_type(ty->fields[i])),
        encode_scalar(ScalarModel::Struct(fields)) is Ok,
    ensures
        ({
            let value = ScalarModel::Struct(fields);
            decode_scalar(encode_scalar(value).unwrap() + rest, ty) == Ok::<
                (ScalarModel, nat),
                ValueEncodingError,
            >((value, encode_scalar(value).unwrap().len()))
        }),
    decreases fields, fields.len() + 1,
{
    lemma_struct_message(fields, rest);
    lemma_round_trip_fields(fields, ty->fields, fields.len());
    assert(fields.take(fields.len() as int) =~= fields);
}

/// Reading the blobs of a struct's fields, each as a cell of the type
/// declared at its place, gives the fields back in their order.
pub proof fn lemma_round_trip_fields(fields: Seq<DatumModel>, types: Seq<TypeModel>, n: nat)
    requires
        n <= fields.len(),
        fields.len() == types.len(),
        forall|i: int|
            0 <= i < fields.len() ==> (#[trigger] fields[i] matches Some(field) ==> field.wf()
                && field.has_type(types[i])),
        encode_fields(fields, fields.len()) is Ok,
    ensures
        decode_fields(encode_fields(fields, fields.len()).unwrap(), types, n) == Ok::<
            Seq<DatumModel>,
            ValueEncodingError,
        >(fields.take(n as int)),
    decreases fields, n,
{
    let blobs = encode_fields(fields, fields.len()).unwrap();
    lemma_encode_fields_len(fields, fields.len());
    if n == 0 {
        assert(fields.take(0) =~= Seq::<DatumModel>::empty());
    } else {
        lemma_round_trip_fields(fields, types, (n - 1) as nat);
        lemma_encode_fields_index(fields, fields.len(), n - 1);
        lemma_round_trip_datum(fields[n - 1], types[n - 1]);
        assert(fields.take(n - 1).push(fields[n - 1]) =~= fields.take(n as int));
    }
}

/// The round trip of the kinds that hold one number.
proof fn lemma_round_trip_number(value: ScalarModel, ty: TypeModel, rest: Seq<u8>)
    requires
        value.wf(),
        value.has_type(ty),
        value is Int16 || value is Int32 || value is Int64 || value is Float32 || value
            is Float64 || value is NaiveDate,
    ensures
        decode_scalar(encode_scalar(value).unwrap() + rest, ty) == Ok::<
            (ScalarModel, nat),
            ValueEncodingError,
        >((value, encode_scalar(value).unwrap().len())),
{
    let bytes = encode_scalar(value).unwrap();
    let all = bytes + rest;
    lemma_radix_pow_values();
    match value {
        ScalarModel::Int16(v) => {
            lemma_signed_le_value_of_bytes(v as int, 2);
            assert(all.take(2) =~= bytes);
        },
        ScalarModel::Int32(v) => {
            lemma_signed_le_value_of_bytes(v as int, 4);
            assert(all.take(4) =~= bytes);
        },
        ScalarModel::Int64(v) => {
            lemma_signed_le_value_of_bytes(v as int, 8);
            assert(all.take(8) =~= bytes);
        },
        ScalarModel::Float32(bits) => {
            lemma_le_bytes_len(bits as nat, 4);
            lemma_le_value_of_bytes(bits as nat, 4);
            assert(all.take(4) =~= bytes);
        },
        ScalarModel::Float64(bits) => {
            lemma_le_bytes_len(bits as nat, 8);
            lemma_le_value_of_bytes(bits as nat, 8);
            assert(all.take(8) =~= bytes);
        },
        ScalarModel::NaiveDate { days } => {
            lemma_signed_le_value_of_bytes(days as int, 4);
            assert(all.take(4) =~= bytes);
        },
        _ => {},
    }
}

/// The round trip of a boolean and of a decimal.
proof fn lemma_round_trip_bytes(value: ScalarModel, ty: TypeModel, rest: Seq<u8>)
    requires
        value.wf(),
        value.has_type(ty),
        value is Bool || value is Decimal,
    ensures
        decode_scalar(encode_scalar(value).unwrap() + rest, ty) == Ok::<
            (ScalarModel, nat),
            ValueEncodingError,
        >((value, encode_scalar(value).unwrap().len())),
{
    let bytes = encode_scalar(value).unwrap();
    let all = bytes + rest;
    if value is Bool {
        assert(all.take(1) =~= bytes);
    } else {
        assert(all.take(16) =~= bytes);
    }
}

/// The round trip of an interval.
proof fn lemma_round_trip_interval(months: i32, days: i32, ms: i64, rest: Seq<u8>)
    ensures
        ({
            let value = (ScalarModel::Interval { months, days, ms });
            decode_scalar(encode_scalar(value).unwrap() + rest, TypeModel::Interval) == Ok::<
                (ScalarModel, nat),
                ValueEncodingError,
            >((value, encode_scalar(value).unwrap().len()))
        }),
{
    let value = ScalarModel::Interval { months, days, ms };
    let bytes = encode_scalar(value).unwrap();
    let all = bytes + rest;
    lemma_radix_pow_values();
    let a = signed_le_bytes(months as int, 4);
    let b = signed_le_bytes(days as int, 4);
    let c = signed_le_bytes(ms as int, 8);
    lemma_signed_le_value_of_bytes(months as int, 4);
    lemma_signed_le_value_of_bytes(days as int, 4);
    lemma_signed_le_value_of_bytes(ms as int, 8);
    assert(all.take(16) =~= bytes);
    assert(bytes.subrange(0, 4) =~= a);
    assert(bytes.subrange(4, 8) =~= b);
    assert(bytes.subrange(8, 16) =~= c);
}

/// The round trip of a timestamp.
proof fn lemma_round_trip_timestamp(secs: i64, nsecs: u32, rest: Seq<u8>)
    requires
        naive_datetime_exists(secs, nsecs),
    ensures
        ({
            let value = (ScalarModel::NaiveDateTime { secs, nsecs });
            decode_scalar(encode_scalar(value).unwrap() + rest, TypeModel::Timestamp) == Ok::<
                (ScalarModel, nat),
                ValueEncodingError,
            >((value, encode_scalar(value).unwrap().len()))
        }),
{
    let value = ScalarModel::NaiveDateTime { secs, nsecs };
    let bytes = encode_scalar(value).unwrap();
    let all = bytes + rest;
    lemma_radix_pow_values();
    let a = signed_le_bytes(secs as int, 8);
    let b = le_bytes(nsecs as nat, 4);
    lemma_signed_le_value_of_bytes(secs as int, 8);
    lemma_le_bytes_len(nsecs as nat, 4);
    lemma_le_value_of_bytes(nsecs as nat, 4);
    assert(all.take(12) =~= bytes);
    assert(bytes.subrange(0, 8) =~= a);
    assert(bytes.subrange(8, 12) =~= b);
}

/// The round trip of a time of day.
proof fn lemma_round_trip_time(midnight_secs: u32, nano: u32, rest: Seq<u8>)
    requires
        naive_time_valid(midnight_secs, nano),
    ensures
        ({
            let value = (ScalarModel::NaiveTime { midnight_secs, nano });
            decode_scalar(encode_scalar(value).unwrap() + rest, TypeModel::Time) == Ok::<
                (ScalarModel, nat),
                ValueEncodingError,
            >((value, encode_scalar(value).unwrap().len()))
        }),
{
    let value = ScalarModel::NaiveTime { midnight_secs, nano };
    let bytes = encode_scalar(value).unwrap();
    let all = bytes + rest;
    lemma_radix_pow_values();
    let a = le_bytes(midnight_secs as nat, 4);
    let b = le_bytes(nano as nat, 4);
    lemma_le_bytes_len(midnight_secs as nat, 4);
    lemma_le_value_of_bytes(midnight_secs as nat, 4);
    lemma_le_bytes_len(nano as nat, 4);
    lemma_le_value_of_bytes(nano as nat, 4);
    assert(all.take(8) =~= bytes);
    assert(bytes.subrange(0, 4) =~= a);
    assert(bytes.subrange(4, 8) =~= b);
}

/// The round trip of a text.
proof fn lemma_round_trip_text(chars: Seq<char>, rest: Seq<u8>)
    requires
        encode_scalar(ScalarModel::Utf8(chars)) is Ok,
    ensures
        ({
            let value = ScalarModel::Utf8(chars);
            decode_scalar(encode_scalar(value).unwrap() + rest, TypeModel::Varchar) == Ok::<
                (ScalarModel, nat),
                ValueEncodingError,
            >((value, encode_scalar(value).unwrap().len()))
        }),
{
    let payload = encode_utf8(chars);
    lemma_decode_length_prefixed(payload, rest);
    vstd::utf8::encode_utf8_valid_utf8(chars);
    vstd::utf8::encode_utf8_decode_utf8(chars);
}

/// Where a struct value has an encoding, its message holds the blobs of its
/// fields, and reading the message gives them back.
pub proof fn lemma_struct_message(fields: Seq<DatumModel>, rest: Seq<u8>)
    requires
        encode_scalar(ScalarModel::Struct(fields)) is Ok,
    ensures
        encode_fields(fields, fields.len()) matches Ok(blobs) && blobs.len() == fields.len()
            && message_bytes(blobs).len() <= u32::MAX && encode_scalar(
            ScalarModel::Struct(fields),
        ) == length_prefixed(message_bytes(blobs)) && decode_length_prefixed(
            encode_scalar(ScalarModel::Struct(fields)).unwrap() + rest,
        ) == Ok::<Seq<u8>, ValueEncodingError>(message_bytes(blobs)) && parse_message(
            message_bytes(blobs),
        ) == Some(blobs) && encode_scalar(ScalarModel::Struct(fields)).unwrap().len() == 4
            + message_bytes(blobs).len(),
{
    let blobs = encode_fields(fields, fields.len()).unwrap();
    lemma_encode_fields_len(fields, fields.len());
    lemma_decode_length_prefixed(message_bytes(blobs), rest);
    assert forall|i: int| 0 <= i < blobs.len() implies (#[trigger] blobs[i]).len()
        <= u64::MAX by {
        lemma_message_bytes_len(blobs, i);
    }
    lemma_parse_message_of_bytes(blobs);
}

/// Reading a struct value with a schema that declares another number of
/// fields than the value holds is an error that tells both numbers.
pub proof fn lemma_field_count_mismatch(fields: Seq<DatumModel>, ty: TypeModel, rest: Seq<u8>)
    requires
        encode_scalar(ScalarModel::Struct(fields)) is Ok,
        ty is Struct,
        ty->fields.len() != fields.len(),
    ensures
        decode_scalar(encode_scalar(ScalarModel::Struct(fields)).unwrap() + rest, ty) == Err::<
            (ScalarModel, nat),
            ValueEncodingError,
        >(
            (ValueEncodingError::FieldCountMismatch {
                expected: ty->fields.len() as usize,
                actual: fields.len() as usize,
            }),
        ),
{
    lemma_struct_message(fields, rest);
}

/// Reading a value of a type of fixed width from fewer bytes than the width,
/// though not from none, is a truncation error.
pub proof fn lemma_truncated_fixed(bytes: Seq<u8>, ty: TypeModel)
    requires
        fixed_width(ty) matches Some(width) && 0 < bytes.len() < width,
    ensures
        decode_datum(bytes, ty) == Err::<(DatumModel, nat), ValueEncodingError>(
            ValueEncodingError::Truncated,
        ),
{
}

/// Reading a text or a struct from bytes that end within the length or
/// before the length is served, though not from none, is a truncation error.
pub proof fn lemma_truncated_length_prefixed(bytes: Seq<u8>, ty: TypeModel)
    requires
        ty is Varchar || ty is Struct,
        0 < bytes.len(),
        bytes.len() < 4 || bytes.len() - 4 < le_value(bytes.take(4)),
    ensures
        decode_datum(bytes, ty) == Err::<(DatumModel, nat), ValueEncodingError>(
            ValueEncodingError::Truncated,
        ),
{
}

/// Reading what is left of a value's bytes when their end is cut off, though
/// not all of them, is a truncation error.
pub proof fn lemma_truncated_prefix(value: ScalarModel, ty: TypeModel, k: int)
    requires
        value.wf(),
        value.has_type(ty),
        encode_scalar(value) is Ok,
        0 < k < encode_scalar(value).unwrap().len(),
    ensures
        decode_datum(encode_scalar(value).unwrap().take(k), ty) == Err::<
            (DatumModel, nat),
            ValueEncodingError,
        >(ValueEncodingError::Truncated),
{
    let bytes = encode_scalar(value).unwrap();
    if fixed_width(ty) is Some {
        lemma_encoded_len_fixed(value, ty);
        lemma_truncated_fixed(bytes.take(k), ty);
    } else {
        let payload = match value {
            ScalarModel::Utf8(chars) => encode_utf8(chars),
            ScalarModel::Struct(fields) => message_bytes(
                encode_fields(fields, fields.len()).unwrap(),
            ),
            _ => Seq::empty(),
        };
        assert(bytes == le_bytes(payload.len(), 4) + payload);
        lemma_le_bytes_len(payload.len(), 4);
        lemma_radix_pow_values();
        lemma_le_value_of_bytes(payload.len(), 4);
        if k >= 4 {
            assert(bytes.take(k).take(4) =~= le_bytes(payload.len(), 4));
        }
        lemma_truncated_length_prefixed(bytes.take(k), ty);
    }
}

/// A value of a type of fixed width is written in as many bytes as the
/// width.
pub proof fn lemma_encoded_len_fixed(value: ScalarModel, ty: TypeModel)
    requires
        value.wf(),
        value.has_type(ty),
        fixed_width(ty) is Some,
    ensures
        encode_scalar(value) matches Ok(bytes) && bytes.len() == fixed_width(ty).unwrap(),
{
    match value {
        ScalarModel::Int16(v) => {
            lemma_signed_le_bytes_len(v as int, 2);
        },
        ScalarModel::Int32(v) => {
            lemma_signed_le_bytes_len(v as int, 4);
        },
        ScalarModel::Int64(v) => {
            lemma_signed_le_bytes_len(v as int, 8);
        },
        ScalarModel::Float32(bits) => {
            lemma_le_bytes_len(bits as nat, 4);
        },
        ScalarModel::Float64(bits) => {
            lemma_le_bytes_len(bits as nat, 8);
        },
        ScalarModel::Interval { months, days, ms } => {
            lemma_signed_le_bytes_len(months as int, 4);
            lemma_signed_le_bytes_len(days as int, 4);
            lemma_signed_le_bytes_len(ms as int, 8);
        },
        ScalarModel::NaiveDate { days } => {
            lemma_signed_le_bytes_len(days as int, 4);
        },
        ScalarModel::NaiveDateTime { secs, nsecs } => {
            lemma_signed_le_bytes_len(secs as int, 8);
            lemma_le_bytes_len(nsecs as nat, 4);
        },
        ScalarModel::NaiveTime { midnight_secs, nano } => {
            lemma_le_bytes_len(midnight_secs as nat, 4);
            lemma_le_bytes_len(nano as nat, 4);
        },
        _ => {},
    }
}

/// Reading a boolean from a byte that is neither `0` nor `1` is an error that
/// carries the byte.
pub proof fn lemma_invalid_bool(bytes: Seq<u8>)
    requires
        bytes.len() >= 1,
        bytes[0] != 0 && bytes[0] != 1,
    ensures
        decode_datum(bytes, TypeModel::Boolean) == Err::<(DatumModel, nat), ValueEncodingError>(
            ValueEncodingError::InvalidBoolEncoding(bytes[0]),
        ),
{
}

/// Reading a text whose payload is not UTF-8 is an error that tells how far
/// the payload is UTF-8.
pub proof fn lemma_invalid_utf8(payload: Seq<u8>, rest: Seq<u8>)
    requires
        payload.len() <= u32::MAX,
        !valid_utf8(payload),
    ensures
        decode_datum(le_bytes(payload.len(), 4) + payload + rest, TypeModel::Varchar) == Err::<
            (DatumModel, nat),
            ValueEncodingError,
        >((ValueEncodingError::InvalidUtf8 { valid_up_to: utf8_valid_up_to(payload) as usize })),
{
    lemma_decode_length_prefixed(payload, rest);
    lemma_le_bytes_len(payload.len(), 4);
}

/// What is read as a value of type `ty` is a value of that type, each part
/// of it one that its kind allows, and takes at least one of the bytes and no
/// more than there are.
pub proof fn lemma_decode_sound(bytes: Seq<u8>, ty: TypeModel)
    requires
        decode_scalar(bytes, ty) is Ok,
    ensures
        ({
            let (value, taken) = decode_scalar(bytes, ty).unwrap();
            value.wf() && value.has_type(ty) && 1 <= taken <= bytes.len()
        }),
    decreases ty, 0nat,
{
    match ty {
        TypeModel::Struct { fields } => {
            let payload = decode_length_prefixed(bytes).unwrap();
            let blobs = parse_message(payload).unwrap();
            let values = decode_fields(blobs, fields, blobs.len()).unwrap();
            lemma_decode_fields_len(blobs, fields, blobs.len());
            assert forall|i: int| 0 <= i < values.len() implies (#[trigger] values[i] matches Some(
                field,
            ) ==> field.wf() && field.has_type(fields[i])) by {
                lemma_decode_fields_index(blobs, fields, blobs.len(), i);
                if blobs[i].len() > 0 {
                    lemma_decode_sound(blobs[i], fields[i]);
                }
            }
        },
        _ => {},
    }
}

/// Writing what was read gives the bytes that were read: for every type but
/// structs, whose message can be written in more ways than one.
pub proof fn lemma_rewrite(bytes: Seq<u8>, ty: TypeModel)
    requires
        !(ty is Struct),
        decode_scalar(bytes, ty) is Ok,
    ensures
        encode_scalar(decode_scalar(bytes, ty).unwrap().0) == Ok::<Seq<u8>, ValueEncodingError>(
            bytes.take(decode_scalar(bytes, ty).unwrap().1 as int),
        ),
{
    if ty is Varchar {
        let payload = decode_length_prefixed(bytes).unwrap();
        vstd::utf8::decode_utf8_encode_utf8(payload);
        lemma_rewrite_unsigned(bytes.take(4));
        assert(bytes.take(4) + payload =~= bytes.take(4 + payload.len() as int));
    } else {
        lemma_rewrite_fixed(bytes, ty);
    }
}

/// The layouts of the types of fixed width are inverse to each other the
/// other way round too.
proof fn lemma_rewrite_fixed(bytes: Seq<u8>, ty: TypeModel)
    requires
        fixed_width(ty) is Some,
        decode_scalar(bytes, ty) is Ok,
    ensures
        encode_scalar(decode_scalar(bytes, ty).unwrap().0) == Ok::<Seq<u8>, ValueEncodingError>(
            bytes.take(decode_scalar(bytes, ty).unwrap().1 as int),
        ),
{
    let width = fixed_width(ty).unwrap();
    let read = bytes.take(width as int);
    match ty {
        TypeModel::Int16 | TypeModel::Int32 | TypeModel::Int64 | TypeModel::Timestampz
        | TypeModel::Date => {
            lemma_rewrite_signed(read);
        },
        TypeModel::Float32 | TypeModel::Float64 => {
            lemma_rewrite_unsigned(read);
        },
        TypeModel::Boolean => {
            assert(read =~= seq![read[0]]);
        },
        TypeModel::Interval => {
            lemma_rewrite_signed(read.subrange(0, 4));
            lemma_rewrite_signed(read.subrange(4, 8));
            lemma_rewrite_signed(read.subrange(8, 16));
            assert(read.subrange(0, 4) + read.subrange(4, 8) + read.subrange(8, 16) =~= read);
        },
        TypeModel::Time => {
            lemma_rewrite_unsigned(read.subrange(0, 4));
            lemma_rewrite_unsigned(read.subrange(4, 8));
            assert(read.subrange(0, 4) + read.subrange(4, 8) =~= read);
        },
        TypeModel::Timestamp => {
            lemma_rewrite_signed(read.subrange(0, 8));
            lemma_rewrite_unsigned(read.subrange(8, 12));
            assert(read.subrange(0, 8) + read.subrange(8, 12) =~= read);
        },
        _ => {},
    }
}

/// What is read from bytes as a two's-complement number is written as these
/// bytes again.
proof fn lemma_rewrite_signed(bytes: Seq<u8>)
    requires
        bytes.len() == 2 || bytes.len() == 4 || bytes.len() == 8,
    ensures
        signed_le_bytes(signed_le_value(bytes), bytes.len()) == bytes,
        bytes.len() == 2 ==> i16::MIN <= signed_le_value(bytes) <= i16::MAX,
        bytes.len() == 4 ==> i32::MIN <= signed_le_value(bytes) <= i32::MAX,
        bytes.len() == 8 ==> i64::MIN <= signed_le_value(bytes) <= i64::MAX,
{
    lemma_radix_pow_values();
    lemma_le_value_bound(bytes);
    lemma_signed_le_bytes_of_value(bytes);
}

/// What is read from bytes as a number is written as these bytes again.
proof fn lemma_rewrite_unsigned(bytes: Seq<u8>)
    requires
        bytes.len() == 4 || bytes.len() == 8,
    ensures
        le_bytes(le_value(bytes), bytes.len()) == bytes,
        bytes.len() == 4 ==> le_value(bytes) <= u32::MAX,
        bytes.len() == 8 ==> le_value(bytes) <= u64::MAX,
{
    lemma_radix_pow_values();
    lemma_le_value_bound(bytes);
    lemma_le_bytes_of_value(bytes);
}

} // verus!
