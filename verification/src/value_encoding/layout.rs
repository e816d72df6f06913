//! The layout of every kind of value: what bytes a value is written as, and
//! what value bytes are read as.

use crate::types::naive_date_exists;
use crate::types::naive_datetime_exists;
use crate::types::naive_time_valid;
use crate::types::TypeModel;
use crate::types::DatumModel;
use crate::types::ScalarModel;
use crate::value_encoding::envelope::message_bytes;
use crate::value_encoding::envelope::parse_message;
use crate::value_encoding::error::ValueEncodingError;
use crate::value_encoding::wire::le_bytes;
use crate::value_encoding::wire::le_value;
use crate::value_encoding::wire::lemma_le_bytes_len;
use crate::value_encoding::wire::lemma_le_value_of_bytes;
use crate::value_encoding::wire::lemma_radix_pow_values;
use crate::value_encoding::wire::signed_le_bytes;
use crate::value_encoding::wire::signed_le_value;
use vstd::prelude::*;
use vstd::utf8::decode_utf8;
use vstd::utf8::encode_utf8;
use vstd::utf8::valid_utf8;

verus! {

/// A payload behind its length in four little-endian bytes; an error where
/// the length does not fit them.
pub open spec fn length_prefixed(payload: Seq<u8>) -> Result<Seq<u8>, ValueEncodingError> {
    if payload.len() > u32::MAX {
        Err(ValueEncodingError::LengthOverflow)
    } else {
        Ok(le_bytes(payload.len(), 4) + payload)
    }
}

/// The bytes of a value that is present.
pub open spec fn encode_scalar(value: ScalarModel) -> Result<Seq<u8>, ValueEncodingError>
    decreases value, 0nat,
{
    match value {
        ScalarModel::Int16(v) => Ok(signed_le_bytes(v as int, 2)),
        ScalarModel::Int32(v) => Ok(signed_le_bytes(v as int, 4)),
        ScalarModel::Int64(v) => Ok(signed_le_bytes(v as int, 8)),
        ScalarModel::Float32(bits) => Ok(le_bytes(bits as nat, 4)),
        ScalarModel::Float64(bits) => Ok(le_bytes(bits as nat, 8)),
        ScalarModel::Utf8(chars) => length_prefixed(encode_utf8(chars)),
        ScalarModel::Bool(v) => Ok(
            seq![if v {
                1u8
            } else {
                0u8
            }],
        ),
        ScalarModel::Decimal(bytes) => Ok(bytes),
        ScalarModel::Interval { months, days, ms } => Ok(
            signed_le_bytes(months as int, 4) + signed_le_bytes(days as int, 4) + signed_le_bytes(
                ms as int,
                8,
            ),
        ),
        ScalarModel::NaiveDate { days } => Ok(signed_le_bytes(days as int, 4)),
        ScalarModel::NaiveDateTime { secs, nsecs } => Ok(
            signed_le_bytes(secs as int, 8) + le_bytes(nsecs as nat, 4),
        ),
        ScalarModel::NaiveTime { midnight_secs, nano } => Ok(
            le_bytes(midnight_secs as nat, 4) + le_bytes(nano as nat, 4),
        ),
        ScalarModel::Struct(fields) => match encode_fields(fields, fields.len()) {
            Ok(blobs) => length_prefixed(message_bytes(blobs)),
            Err(e) => Err(e),
        },
        ScalarModel::List(_) => Err(ValueEncodingError::UnsupportedType),
    }
}

/// The bytes of a value that may be absent: none at all where it is.
pub open spec fn encode_datum(datum: DatumModel) -> Result<Seq<u8>, ValueEncodingError>
    decreases datum, 0nat,
{
    match datum {
        Some(value) => encode_scalar(value),
        None => Ok(Seq::empty()),
    }
}

/// The blobs of the first `n` fields, in order; the error of the first field
/// that has one.
pub open spec fn encode_fields(fields: Seq<DatumModel>, n: nat) -> Result<
    Seq<Seq<u8>>,
    ValueEncodingError,
>
    decreases fields, n,
{
    if n == 0 || n > fields.len() {
        Ok(Seq::empty())
    } else {
        match encode_fields(fields, (n - 1) as nat) {
            Ok(blobs) => match encode_datum(fields[n - 1]) {
                Ok(blob) => Ok(blobs.push(blob)),
                Err(e) => Err(e),
            },
            Err(e) => Err(e),
        }
    }
}

/// How many bytes a value of type `ty` takes, where that is the same for all
/// its values.
pub open spec fn fixed_width(ty: TypeModel) -> Option<nat> {
    match ty {
        TypeModel::Boolean => Some(1),
        TypeModel::Int16 => Some(2),
        TypeModel::Int32 | TypeModel::Float32 | TypeModel::Date => Some(4),
        TypeModel::Int64 | TypeModel::Float64 | TypeModel::Timestampz | TypeModel::Time => Some(8),
        TypeModel::Timestamp => Some(12),
        TypeModel::Decimal | TypeModel::Interval => Some(16),
        TypeModel::Varchar | TypeModel::Struct { .. } | TypeModel::List { .. } => None,
    }
}

/// The payload at the start of `bytes`, behind its length in four
/// little-endian bytes.
pub open spec fn decode_length_prefixed(bytes: Seq<u8>) -> Result<Seq<u8>, ValueEncodingError> {
    if bytes.len() < 4 {
        Err(ValueEncodingError::Truncated)
    } else {
        let len = le_value(bytes.take(4));
        if bytes.len() - 4 < len {
            Err(ValueEncodingError::Truncated)
        } else {
            Ok(bytes.subrange(4, 4 + len as int))
        }
    }
}

/// Whether the first `k` bytes are UTF-8 and no longer prefix is.
pub open spec fn is_utf8_valid_up_to(bytes: Seq<u8>, k: nat) -> bool {
    &&& k <= bytes.len()
    &&& valid_utf8(bytes.take(k as int))
    &&& forall|j: int| k < j <= bytes.len() ==> !valid_utf8(#[trigger] bytes.take(j))
}

/// The length of the longest prefix of `bytes` that is UTF-8.
pub open spec fn utf8_valid_up_to(bytes: Seq<u8>) -> nat {
    choose|k: nat| is_utf8_valid_up_to(bytes, k)
}

/// The text that `payload` holds.
pub open spec fn decode_text(payload: Seq<u8>) -> Result<Seq<char>, ValueEncodingError> {
    if valid_utf8(payload) {
        Ok(decode_utf8(payload))
    } else {
        Err(ValueEncodingError::InvalidUtf8 { valid_up_to: utf8_valid_up_to(payload) as usize })
    }
}

/// The value of type `ty` at the start of `bytes`, and how many bytes it
/// takes. The bytes say nothing of the type: it is the one asked for that
/// decides how they are read.
pub open spec fn decode_scalar(bytes: Seq<u8>, ty: TypeModel) -> Result<
    (ScalarModel, nat),
    ValueEncodingError,
>
    decreases ty, 0nat,
{
    match ty {
        TypeModel::List { .. } => Err(ValueEncodingError::UnsupportedType),
        TypeModel::Varchar => match decode_length_prefixed(bytes) {
            Ok(payload) => match decode_text(payload) {
                Ok(chars) => Ok((ScalarModel::Utf8(chars), 4 + payload.len())),
                Err(e) => Err(e),
            },
            Err(e) => Err(e),
        },
        TypeModel::Struct { fields } => match decode_length_prefixed(bytes) {
            Ok(payload) => match parse_message(payload) {
                Some(blobs) => if blobs.len() != fields.len() {
                    Err(
                        ValueEncodingError::FieldCountMismatch {
                            expected: fields.len() as usize,
                            actual: blobs.len() as usize,
                        },
                    )
                } else {
                    match decode_fields(blobs, fields, blobs.len()) {
                        Ok(values) => Ok((ScalarModel::Struct(values), 4 + payload.len())),
                        Err(e) => Err(e),
                    }
                },
                None => Err(ValueEncodingError::InvalidStructEncoding),
            },
            Err(e) => Err(e),
        },
        _ => if bytes.len() < fixed_width(ty).unwrap() {
            Err(ValueEncodingError::Truncated)
        } else {
            match decode_fixed(bytes.take(fixed_width(ty).unwrap() as int), ty) {
                Ok(value) => Ok((value, fixed_width(ty).unwrap())),
                Err(e) => Err(e),
            }
        },
    }
}

/// The value of a type of fixed width that `bytes` hold, which are as many
/// as the type takes.
pub open spec fn decode_fixed(bytes: Seq<u8>, ty: TypeModel) -> Result<
    ScalarModel,
    ValueEncodingError,
> {
    match ty {
        TypeModel::Int16 => Ok(ScalarModel::Int16(signed_le_value(bytes) as i16)),
        TypeModel::Int32 => Ok(ScalarModel::Int32(signed_le_value(bytes) as i32)),
        TypeModel::Int64 | TypeModel::Timestampz => Ok(
            ScalarModel::Int64(signed_le_value(bytes) as i64),
        ),
        TypeModel::Float32 => Ok(ScalarModel::Float32(le_value(bytes) as u32)),
        TypeModel::Float64 => Ok(ScalarModel::Float64(le_value(bytes) as u64)),
        TypeModel::Boolean => if bytes[0] == 1 {
            Ok(ScalarModel::Bool(true))
        } else if bytes[0] == 0 {
            Ok(ScalarModel::Bool(false))
        } else {
            Err(ValueEncodingError::InvalidBoolEncoding(bytes[0]))
        },
        TypeModel::Decimal => Ok(ScalarModel::Decimal(bytes)),
        TypeModel::Interval => Ok(
            ScalarModel::Interval {
                months: signed_le_value(bytes.subrange(0, 4)) as i32,
                days: signed_le_value(bytes.subrange(4, 8)) as i32,
                ms: signed_le_value(bytes.subrange(8, 16)) as i64,
            },
        ),
        TypeModel::Date => {
            let days = signed_le_value(bytes) as i32;
            if naive_date_exists(days) {
                Ok(ScalarModel::NaiveDate { days })
            } else {
                Err(ValueEncodingError::InvalidNaiveDateEncoding(days))
            }
        },
        TypeModel::Time => {
            let secs = le_value(bytes.subrange(0, 4)) as u32;
            let nano = le_value(bytes.subrange(4, 8)) as u32;
            if naive_time_valid(secs, nano) {
                Ok(ScalarModel::NaiveTime { midnight_secs: secs, nano })
            } else {
                Err(ValueEncodingError::InvalidNaiveTimeEncoding(secs, nano))
            }
        },
        TypeModel::Timestamp => {
            let secs = signed_le_value(bytes.subrange(0, 8)) as i64;
            let nsecs = le_value(bytes.subrange(8, 12)) as u32;
            if naive_datetime_exists(secs, nsecs) {
                Ok(ScalarModel::NaiveDateTime { secs, nsecs })
            } else {
                Err(ValueEncodingError::InvalidNaiveDateTimeEncoding(secs, nsecs))
            }
        },
        TypeModel::Varchar | TypeModel::Struct { .. } | TypeModel::List { .. } => Err(
            ValueEncodingError::UnsupportedType,
        ),
    }
}

/// The value of type `ty` that `bytes` start with, or none where there are no
/// bytes at all; and how many bytes it takes.
pub open spec fn decode_datum(bytes: Seq<u8>, ty: TypeModel) -> Result<
    (DatumModel, nat),
    ValueEncodingError,
>
    decreases ty, 1nat,
{
    if bytes.len() == 0 {
        Ok((None, 0))
    } else {
        match decode_scalar(bytes, ty) {
            Ok((value, taken)) => Ok((Some(value), taken)),
            Err(e) => Err(e),
        }
    }
}

/// The values that the first `n` blobs hold, each read as a cell of the type
/// declared at its place; the error of the first blob that has one. What
/// follows the value within its blob is passed over.
pub open spec fn decode_fields(blobs: Seq<Seq<u8>>, types: Seq<TypeModel>, n: nat) -> Result<
    Seq<DatumModel>,
    ValueEncodingError,
>
    decreases types, n,
{
    if n == 0 || n > types.len() || n > blobs.len() {
        Ok(Seq::empty())
    } else {
        match decode_fields(blobs, types, (n - 1) as nat) {
            Ok(values) => match decode_datum(blobs[n - 1], types[n - 1]) {
                Ok((value, _)) => Ok(values.push(value)),
                Err(e) => Err(e),
            },
            Err(e) => Err(e),
        }
    }
}

/// Once a field has an error, taking more fields gives the same error.
pub proof fn lemma_encode_fields_error(fields: Seq<DatumModel>, n: nat, m: nat)
    requires
        n <= m <= fields.len(),
        encode_fields(fields, n) is Err,
    ensures
        encode_fields(fields, m) == encode_fields(fields, n),
    decreases m,
{
    if n < m {
        lemma_encode_fields_error(fields, n, (m - 1) as nat);
    }
}

/// Once a blob has an error, taking more blobs gives the same error.
pub proof fn lemma_decode_fields_error(
    blobs: Seq<Seq<u8>>,
    types: Seq<TypeModel>,
    n: nat,
    m: nat,
)
    requires
        n <= m <= types.len(),
        m <= blobs.len(),
        decode_fields(blobs, types, n) is Err,
    ensures
        decode_fields(blobs, types, m) == decode_fields(blobs, types, n),
    decreases m,
{
    if n < m {
        lemma_decode_fields_error(blobs, types, n, (m - 1) as nat);
    }
}

/// At most one length is that of the longest UTF-8 prefix.
pub proof fn lemma_utf8_valid_up_to_unique(bytes: Seq<u8>, k: nat)
    requires
        is_utf8_valid_up_to(bytes, k),
    ensures
        utf8_valid_up_to(bytes) == k,
{
    let chosen = utf8_valid_up_to(bytes);
    assert(is_utf8_valid_up_to(bytes, chosen));
    if chosen < k {
        assert(!valid_utf8(bytes.take(k as int)));
    } else if k < chosen {
        assert(!valid_utf8(bytes.take(chosen as int)));
    }
}

/// A payload behind its length is read back, whatever follows it.
pub proof fn lemma_decode_length_prefixed(payload: Seq<u8>, rest: Seq<u8>)
    requires
        payload.len() <= u32::MAX,
    ensures
        length_prefixed(payload) matches Ok(framed) && framed.len() == 4 + payload.len()
            && decode_length_prefixed(framed + rest) == Ok::<Seq<u8>, ValueEncodingError>(
            payload,
        ),
{
    let framed = le_bytes(payload.len(), 4) + payload;
    lemma_le_bytes_len(payload.len(), 4);
    lemma_radix_pow_values();
    lemma_le_value_of_bytes(payload.len(), 4);
    assert((framed + rest).take(4) =~= le_bytes(payload.len(), 4));
    assert((framed + rest).subrange(4, 4 + payload.len() as int) =~= payload);
}

/// Where the first `n` fields have blobs, there are `n` of them.
pub proof fn lemma_encode_fields_len(fields: Seq<DatumModel>, n: nat)
    requires
        n <= fields.len(),
        encode_fields(fields, n) is Ok,
    ensures
        encode_fields(fields, n).unwrap().len() == n,
    decreases n,
{
    if n > 0 {
        lemma_encode_fields_len(fields, (n - 1) as nat);
    }
}

/// Where the first `n` fields have blobs, each blob is what its field is
/// written as.
pub proof fn lemma_encode_fields_index(fields: Seq<DatumModel>, n: nat, i: int)
    requires
        n <= fields.len(),
        encode_fields(fields, n) is Ok,
        0 <= i < n,
    ensures
        encode_fields(fields, n).unwrap().len() == n,
        encode_datum(fields[i]) is Ok,
        encode_fields(fields, n).unwrap()[i] == encode_datum(fields[i]).unwrap(),
    decreases n,
{
    lemma_encode_fields_len(fields, n);
    lemma_encode_fields_len(fields, (n - 1) as nat);
    if i < n - 1 {
        lemma_encode_fields_index(fields, (n - 1) as nat, i);
    }
}

/// Where the first `n` blobs are read, there are `n` values.
pub proof fn lemma_decode_fields_len(blobs: Seq<Seq<u8>>, types: Seq<TypeModel>, n: nat)
    requires
        n <= types.len(),
        n <= blobs.len(),
        decode_fields(blobs, types, n) is Ok,
    ensures
        decode_fields(blobs, types, n).unwrap().len() == n,
    decreases n,
{
    if n > 0 {
        lemma_decode_fields_len(blobs, types, (n - 1) as nat);
    }
}

/// Where the first `n` blobs are read, there are `n` values, and each is what
/// its blob holds as a cell of the type at its place.
pub proof fn lemma_decode_fields_index(
    blobs: Seq<Seq<u8>>,
    types: Seq<TypeModel>,
    n: nat,
    i: int,
)
    requires
        n <= types.len(),
        n <= blobs.len(),
        decode_fields(blobs, types, n) is Ok,
        0 <= i < n,
    ensures
        decode_fields(blobs, types, n).unwrap().len() == n,
        decode_datum(blobs[i], types[i]) is Ok,
        decode_fields(blobs, types, n).unwrap()[i] == decode_datum(blobs[i], types[i]).unwrap().0,
    decreases n,
{
    lemma_decode_fields_len(blobs, types, n);
    lemma_decode_fields_len(blobs, types, (n - 1) as nat);
    if i < n - 1 {
        lemma_decode_fields_index(blobs, types, (n - 1) as nat, i);
    }
}

} // verus!
