use engine_core::types::DataType;
use engine_core::types::Datum;
use engine_core::types::Decimal;
use engine_core::types::IntervalUnit;
use engine_core::types::ListValue;
use engine_core::types::NaiveDateTimeWrapper;
use engine_core::types::NaiveDateWrapper;
use engine_core::types::NaiveTimeWrapper;
use engine_core::types::OrderedF32;
use engine_core::types::OrderedF64;
use engine_core::types::ScalarImpl;
use engine_core::types::StructValue;
use engine_core::value_encoding::deserialize_bool;
use engine_core::value_encoding::deserialize_cell;
use engine_core::value_encoding::deserialize_decimal;
use engine_core::value_encoding::deserialize_interval;
use engine_core::value_encoding::deserialize_naivedate;
use engine_core::value_encoding::deserialize_naivedatetime;
use engine_core::value_encoding::deserialize_naivetime;
use engine_core::value_encoding::deserialize_str;
use engine_core::value_encoding::deserialize_struct;
use engine_core::value_encoding::deserialize_value;
use engine_core::value_encoding::envelope::decode_message;
use engine_core::value_encoding::envelope::encode_message;
use engine_core::value_encoding::envelope::refuse;
use engine_core::value_encoding::error::ValueEncodingError;
use engine_core::value_encoding::length_prefix;
use engine_core::value_encoding::serialize_cell;
use engine_core::value_encoding::serialize_decimal;
use engine_core::value_encoding::serialize_interval;
use engine_core::value_encoding::serialize_naivedate;
use engine_core::value_encoding::serialize_naivedatetime;
use engine_core::value_encoding::serialize_naivetime;
use engine_core::value_encoding::serialize_str;
use engine_core::value_encoding::serialize_struct;
use engine_core::value_encoding::serialize_value;

fn encode(value: ScalarImpl) -> Vec<u8> {
    serialize_cell(&Some(value)).unwrap()
}

fn decode(bytes: &[u8], ty: &DataType) -> Result<(Datum, usize), ValueEncodingError> {
    let mut cursor = bytes;
    let datum = deserialize_cell(&mut cursor, ty)?;
    Ok((datum, cursor.len()))
}

fn assert_round_trip(value: ScalarImpl, ty: DataType) {
    let bytes = encode(value.clone());
    assert!(!bytes.is_empty());
    assert_eq!(decode(&bytes, &ty), Ok((Some(value), 0)));
}

fn date(days: i32) -> NaiveDateWrapper {
    NaiveDateWrapper::new_with_days_value_encoding(days).unwrap()
}

fn time(secs: u32, nano: u32) -> NaiveTimeWrapper {
    NaiveTimeWrapper::new_with_secs_nano_value_encoding(secs, nano).unwrap()
}

fn timestamp(secs: i64, nsecs: u32) -> NaiveDateTimeWrapper {
    NaiveDateTimeWrapper::new_with_secs_nsecs_value_encoding(secs, nsecs).unwrap()
}

fn row(fields: Vec<Datum>) -> ScalarImpl {
    ScalarImpl::Struct(StructValue::new(fields))
}

fn schema(fields: Vec<DataType>) -> DataType {
    DataType::Struct { fields }
}

fn supported_types() -> Vec<DataType> {
    vec![
        DataType::Int16,
        DataType::Int32,
        DataType::Int64,
        DataType::Float32,
        DataType::Float64,
        DataType::Decimal,
        DataType::Date,
        DataType::Varchar,
        DataType::Time,
        DataType::Timestamp,
        DataType::Timestampz,
        DataType::Interval,
        DataType::Boolean,
        schema(vec![DataType::Int32, DataType::Varchar]),
        DataType::List { datatype: Box::new(DataType::Int32) },
    ]
}

#[test]
fn int32_is_four_little_endian_bytes() {
    let bytes = encode(ScalarImpl::Int32(42));
    assert_eq!(bytes, vec![0x2A, 0x00, 0x00, 0x00]);
    assert_eq!(decode(&bytes, &DataType::Int32), Ok((Some(ScalarImpl::Int32(42)), 0)));
}

#[test]
fn text_is_length_then_bytes() {
    let bytes = encode(ScalarImpl::Utf8("ab".to_string()));
    assert_eq!(bytes, vec![0x02, 0x00, 0x00, 0x00, 0x61, 0x62]);
    assert_eq!(
        decode(&bytes, &DataType::Varchar),
        Ok((Some(ScalarImpl::Utf8("ab".to_string())), 0))
    );
}

#[test]
fn text_one_byte_short_is_truncated() {
    let bytes = [0x02, 0x00, 0x00, 0x00, 0x61];
    assert_eq!(decode(&bytes, &DataType::Varchar), Err(ValueEncodingError::Truncated));
}

#[test]
fn absent_value_is_no_bytes() {
    assert_eq!(serialize_cell(&None), Ok(vec![]));
    assert_eq!(decode(&[], &DataType::Boolean), Ok((None, 0)));
}

#[test]
fn no_bytes_are_an_absent_value_of_any_type() {
    for ty in supported_types() {
        assert_eq!(decode(&[], &ty), Ok((None, 0)));
    }
}

#[test]
fn struct_against_longer_schema_is_a_count_mismatch() {
    let bytes = encode(row(vec![
        Some(ScalarImpl::Int32(7)),
        Some(ScalarImpl::Utf8("x".to_string())),
    ]));
    let three = schema(vec![DataType::Int32, DataType::Varchar, DataType::Boolean]);
    assert_eq!(
        decode(&bytes, &three),
        Err(ValueEncodingError::FieldCountMismatch { expected: 3, actual: 2 })
    );
}

#[test]
fn struct_against_shorter_schema_is_a_count_mismatch() {
    let bytes = encode(row(vec![
        Some(ScalarImpl::Int32(7)),
        Some(ScalarImpl::Utf8("x".to_string())),
    ]));
    let one = schema(vec![DataType::Int32]);
    assert_eq!(
        decode(&bytes, &one),
        Err(ValueEncodingError::FieldCountMismatch { expected: 1, actual: 2 })
    );
}

#[test]
fn byte_three_is_no_boolean() {
    assert_eq!(
        decode(&[0x03], &DataType::Boolean),
        Err(ValueEncodingError::InvalidBoolEncoding(3))
    );
}

#[test]
fn byte_two_is_no_boolean() {
    let mut cursor: &[u8] = &[0x02, 0x01];
    assert_eq!(deserialize_bool(&mut cursor), Err(ValueEncodingError::InvalidBoolEncoding(2)));
    assert_eq!(cursor, &[0x02, 0x01]);
}

#[test]
fn booleans_are_one_and_zero() {
    assert_eq!(encode(ScalarImpl::Bool(true)), vec![0x01]);
    assert_eq!(encode(ScalarImpl::Bool(false)), vec![0x00]);
    assert_round_trip(ScalarImpl::Bool(true), DataType::Boolean);
    assert_round_trip(ScalarImpl::Bool(false), DataType::Boolean);
}

#[test]
fn integers_are_twos_complement() {
    assert_eq!(encode(ScalarImpl::Int16(-2)), vec![0xFE, 0xFF]);
    assert_eq!(encode(ScalarImpl::Int16(0x0809)), vec![0x09, 0x08]);
    assert_eq!(encode(ScalarImpl::Int32(-1)), vec![0xFF, 0xFF, 0xFF, 0xFF]);
    assert_eq!(encode(ScalarImpl::Int32(i32::MIN)), vec![0x00, 0x00, 0x00, 0x80]);
    assert_eq!(
        encode(ScalarImpl::Int64(0x0102_0304_0506_0708)),
        vec![0x08, 0x07, 0x06, 0x05, 0x04, 0x03, 0x02, 0x01]
    );
    assert_eq!(encode(ScalarImpl::Int64(-256)), vec![0x00, 0xFF, 0xFF, 0xFF, 0xFF, 0xFF, 0xFF, 0xFF]);
}

#[test]
fn integers_round_trip() {
    for v in [i16::MIN, -1, 0, 1, 258, i16::MAX] {
        assert_round_trip(ScalarImpl::Int16(v), DataType::Int16);
    }
    for v in [i32::MIN, -1, 0, 42, 65_536, i32::MAX] {
        assert_round_trip(ScalarImpl::Int32(v), DataType::Int32);
    }
    for v in [i64::MIN, -1, 0, 42, 1 << 40, i64::MAX] {
        assert_round_trip(ScalarImpl::Int64(v), DataType::Int64);
    }
}

#[test]
fn timestamp_with_zone_is_a_bare_integer() {
    let bytes = encode(ScalarImpl::Int64(1_650_000_000_000));
    assert_eq!(
        decode(&bytes, &DataType::Timestampz),
        Ok((Some(ScalarImpl::Int64(1_650_000_000_000)), 0))
    );
}

#[test]
fn floats_are_their_bits() {
    let one_and_a_half = OrderedF32::from_bits(1.5f32.to_bits());
    assert_eq!(encode(ScalarImpl::Float32(one_and_a_half)), 1.5f32.to_le_bytes().to_vec());
    assert_eq!(encode(ScalarImpl::Float32(one_and_a_half)), vec![0x00, 0x00, 0xC0, 0x3F]);
    let minus_two = OrderedF64::from_bits((-2.0f64).to_bits());
    assert_eq!(encode(ScalarImpl::Float64(minus_two)), (-2.0f64).to_le_bytes().to_vec());
    assert_eq!(
        encode(ScalarImpl::Float64(minus_two)),
        vec![0x00, 0x00, 0x00, 0x00, 0x00, 0x00, 0x00, 0xC0]
    );
}

#[test]
fn floats_round_trip() {
    for v in [0.0f32, -0.0, 1.5, f32::MAX, f32::MIN_POSITIVE, f32::INFINITY, f32::NAN] {
        assert_round_trip(ScalarImpl::Float32(OrderedF32::from_bits(v.to_bits())), DataType::Float32);
    }
    for v in [0.0f64, -0.0, 1.5, f64::MAX, f64::MIN_POSITIVE, f64::NEG_INFINITY, f64::NAN] {
        assert_round_trip(ScalarImpl::Float64(OrderedF64::from_bits(v.to_bits())), DataType::Float64);
    }
    let (datum, _) = decode(&2.25f32.to_le_bytes(), &DataType::Float32).unwrap();
    match datum {
        Some(ScalarImpl::Float32(v)) => assert_eq!(f32::from_bits(v.to_bits()), 2.25),
        other => panic!("not a float: {:?}", other),
    }
}

#[test]
fn text_round_trips() {
    for text in ["", "x", "ab", "na\u{ef}ve", "\u{65e5}\u{672c}\u{8a9e}", "\u{1f600} ok"] {
        assert_round_trip(ScalarImpl::Utf8(text.to_string()), DataType::Varchar);
    }
    let bytes = encode(ScalarImpl::Utf8(String::new()));
    assert_eq!(bytes, vec![0x00, 0x00, 0x00, 0x00]);
    let long = "a".repeat(300);
    let bytes = encode(ScalarImpl::Utf8(long.clone()));
    assert_eq!(&bytes[..4], &[0x2C, 0x01, 0x00, 0x00]);
    assert_eq!(decode(&bytes, &DataType::Varchar), Ok((Some(ScalarImpl::Utf8(long)), 0)));
}

#[test]
fn text_that_is_not_utf8_is_refused() {
    let bytes = [0x02, 0x00, 0x00, 0x00, 0x61, 0xFF];
    assert_eq!(
        decode(&bytes, &DataType::Varchar),
        Err(ValueEncodingError::InvalidUtf8 { valid_up_to: 1 })
    );
    let bytes = [0x03, 0x00, 0x00, 0x00, 0xE6, 0x97, 0x61];
    assert_eq!(
        decode(&bytes, &DataType::Varchar),
        Err(ValueEncodingError::InvalidUtf8 { valid_up_to: 0 })
    );
    let mut cursor: &[u8] = &[0x01, 0x00, 0x00, 0x00, 0x80, 0x07];
    assert_eq!(
        deserialize_str(&mut cursor),
        Err(ValueEncodingError::InvalidUtf8 { valid_up_to: 0 })
    );
    assert_eq!(cursor.len(), 6);
}

#[test]
fn decimal_is_sixteen_bytes_as_they_are() {
    let pattern: [u8; 16] = [0, 0, 2, 0x80, 1, 2, 3, 4, 5, 6, 7, 8, 9, 10, 11, 12];
    let decimal = Decimal::unordered_deserialize(pattern);
    assert_eq!(decimal.unordered_serialize(), pattern);
    assert_eq!(encode(ScalarImpl::Decimal(decimal)), pattern.to_vec());
    assert_round_trip(ScalarImpl::Decimal(decimal), DataType::Decimal);
    let mut buf = vec![0xAA];
    serialize_decimal(&decimal, &mut buf);
    assert_eq!(buf.len(), 17);
    assert_eq!(&buf[1..], &pattern);
    let mut cursor: &[u8] = &buf[1..];
    assert_eq!(deserialize_decimal(&mut cursor), Ok(decimal));
    assert!(cursor.is_empty());
}

#[test]
fn interval_is_months_days_milliseconds() {
    let interval = IntervalUnit::new(1, -2, 3);
    assert_eq!(interval.get_months(), 1);
    assert_eq!(interval.get_days(), -2);
    assert_eq!(interval.get_ms(), 3);
    let bytes = encode(ScalarImpl::Interval(interval));
    assert_eq!(
        bytes,
        vec![1, 0, 0, 0, 0xFE, 0xFF, 0xFF, 0xFF, 3, 0, 0, 0, 0, 0, 0, 0]
    );
    assert_round_trip(ScalarImpl::Interval(interval), DataType::Interval);
    assert_round_trip(
        ScalarImpl::Interval(IntervalUnit::new(i32::MIN, i32::MAX, i64::MIN)),
        DataType::Interval,
    );
    let mut buf = Vec::new();
    serialize_interval(&interval, &mut buf);
    assert_eq!(buf, bytes);
    let mut cursor: &[u8] = &bytes;
    assert_eq!(deserialize_interval(&mut cursor), Ok(interval));
    assert!(cursor.is_empty());
}

#[test]
fn date_is_its_day_number() {
    let day = date(730_000);
    assert_eq!(day.num_days_from_ce(), 730_000);
    let bytes = encode(ScalarImpl::NaiveDate(day));
    assert_eq!(bytes, 730_000i32.to_le_bytes().to_vec());
    assert_eq!(bytes, vec![0x90, 0x23, 0x0B, 0x00]);
    assert_round_trip(ScalarImpl::NaiveDate(day), DataType::Date);
    assert_round_trip(ScalarImpl::NaiveDate(date(-1)), DataType::Date);
    let mut buf = Vec::new();
    serialize_naivedate(730_000, &mut buf);
    assert_eq!(buf, bytes);
}

#[test]
fn date_agrees_with_the_calendar() {
    for days in [i32::MIN, -100_000_000, -1, 0, 1, 730_000, 100_000_000, i32::MAX] {
        let known = chrono::NaiveDate::from_num_days_from_ce_opt(days).is_some();
        assert_eq!(NaiveDateWrapper::new_with_days_value_encoding(days).is_ok(), known);
    }
    assert!(NaiveDateWrapper::new_with_days_value_encoding(1).is_ok());
    assert_eq!(
        NaiveDateWrapper::new_with_days_value_encoding(100_000_000),
        Err(ValueEncodingError::InvalidNaiveDateEncoding(100_000_000))
    );
}

#[test]
fn date_out_of_range_is_refused() {
    let bytes = i32::MAX.to_le_bytes();
    let mut cursor: &[u8] = &bytes;
    assert_eq!(
        deserialize_naivedate(&mut cursor),
        Err(ValueEncodingError::InvalidNaiveDateEncoding(i32::MAX))
    );
    assert_eq!(cursor.len(), 4);
    assert_eq!(
        decode(&(-100_000_000i32).to_le_bytes(), &DataType::Date),
        Err(ValueEncodingError::InvalidNaiveDateEncoding(-100_000_000))
    );
}

#[test]
fn date_from_lookup_follows_what_was_found() {
    let found = chrono::NaiveDate::from_num_days_from_ce_opt(5);
    assert_eq!(NaiveDateWrapper::from_lookup(5, found).map(|d| d.num_days_from_ce()), Ok(5));
    assert_eq!(
        NaiveDateWrapper::from_lookup(100_000_000, None),
        Err(ValueEncodingError::InvalidNaiveDateEncoding(100_000_000))
    );
}

#[test]
fn time_is_seconds_and_nanoseconds() {
    let noon = time(43_200, 500);
    assert_eq!(noon.num_seconds_from_midnight(), 43_200);
    assert_eq!(noon.nanosecond(), 500);
    let bytes = encode(ScalarImpl::NaiveTime(noon));
    assert_eq!(bytes, vec![0xC0, 0xA8, 0x00, 0x00, 0xF4, 0x01, 0x00, 0x00]);
    assert_round_trip(ScalarImpl::NaiveTime(noon), DataType::Time);
    assert_round_trip(ScalarImpl::NaiveTime(time(0, 0)), DataType::Time);
    assert_round_trip(ScalarImpl::NaiveTime(time(86_399, 999_999_999)), DataType::Time);
    assert_round_trip(ScalarImpl::NaiveTime(time(86_399, 1_999_999_999)), DataType::Time);
    let mut buf = Vec::new();
    serialize_naivetime(43_200, 500, &mut buf);
    assert_eq!(buf, bytes);
}

#[test]
fn time_outside_the_day_is_refused() {
    for (secs, nano) in [
        (86_400, 0),
        (0, 2_000_000_000),
        (0, 1_000_000_000),
        (58, 1_500_000_000),
        (u32::MAX, u32::MAX),
    ] {
        assert_eq!(
            NaiveTimeWrapper::new_with_secs_nano_value_encoding(secs, nano),
            Err(ValueEncodingError::InvalidNaiveTimeEncoding(secs, nano))
        );
        assert!(chrono::NaiveTime::from_num_seconds_from_midnight_opt(secs, nano).is_none());
    }
    for (secs, nano) in [(59, 1_000_000_000), (119, 1_999_999_999), (86_399, 0)] {
        assert!(NaiveTimeWrapper::new_with_secs_nano_value_encoding(secs, nano).is_ok());
        assert!(chrono::NaiveTime::from_num_seconds_from_midnight_opt(secs, nano).is_some());
    }
    let mut bytes = 86_400u32.to_le_bytes().to_vec();
    bytes.extend_from_slice(&7u32.to_le_bytes());
    let mut cursor: &[u8] = &bytes;
    assert_eq!(
        deserialize_naivetime(&mut cursor),
        Err(ValueEncodingError::InvalidNaiveTimeEncoding(86_400, 7))
    );
    assert_eq!(cursor.len(), 8);
}

#[test]
fn timestamp_is_seconds_and_nanoseconds() {
    let stamp = timestamp(1_431_648_000, 9);
    assert_eq!(stamp.timestamp(), 1_431_648_000);
    assert_eq!(stamp.timestamp_subsec_nanos(), 9);
    let bytes = encode(ScalarImpl::NaiveDateTime(stamp));
    assert_eq!(
        bytes,
        vec![0x00, 0x37, 0x55, 0x55, 0x00, 0x00, 0x00, 0x00, 0x09, 0x00, 0x00, 0x00]
    );
    assert_round_trip(ScalarImpl::NaiveDateTime(stamp), DataType::Timestamp);
    assert_round_trip(ScalarImpl::NaiveDateTime(timestamp(-1, 999_999_999)), DataType::Timestamp);
    assert_round_trip(ScalarImpl::NaiveDateTime(timestamp(0, 0)), DataType::Timestamp);
    let mut buf = Vec::new();
    serialize_naivedatetime(1_431_648_000, 9, &mut buf);
    assert_eq!(buf, bytes);
}

#[test]
fn timestamp_out_of_range_is_refused() {
    assert_eq!(
        NaiveDateTimeWrapper::new_with_secs_nsecs_value_encoding(i64::MAX, 0),
        Err(ValueEncodingError::InvalidNaiveDateTimeEncoding(i64::MAX, 0))
    );
    assert_eq!(
        NaiveDateTimeWrapper::new_with_secs_nsecs_value_encoding(0, 2_000_000_000),
        Err(ValueEncodingError::InvalidNaiveDateTimeEncoding(0, 2_000_000_000))
    );
    assert_eq!(
        NaiveDateTimeWrapper::from_lookup(i64::MIN, 1, None),
        Err(ValueEncodingError::InvalidNaiveDateTimeEncoding(i64::MIN, 1))
    );
    let mut bytes = i64::MAX.to_le_bytes().to_vec();
    bytes.extend_from_slice(&0u32.to_le_bytes());
    let mut cursor: &[u8] = &bytes;
    assert_eq!(
        deserialize_naivedatetime(&mut cursor),
        Err(ValueEncodingError::InvalidNaiveDateTimeEncoding(i64::MAX, 0))
    );
    assert_eq!(cursor.len(), 12);
}

#[test]
fn struct_is_length_then_message() {
    let bytes = encode(row(vec![
        Some(ScalarImpl::Int32(7)),
        Some(ScalarImpl::Utf8("x".to_string())),
    ]));
    assert_eq!(
        bytes,
        vec![
            0x0D, 0x00, 0x00, 0x00, // the message takes thirteen bytes
            0x0A, 0x04, 0x07, 0x00, 0x00, 0x00, // the integer
            0x0A, 0x05, 0x01, 0x00, 0x00, 0x00, 0x78, // the text
        ]
    );
}

#[test]
fn struct_round_trips_in_field_order() {
    let ty = schema(vec![DataType::Int32, DataType::Varchar, DataType::Boolean]);
    let value = row(vec![
        Some(ScalarImpl::Int32(7)),
        Some(ScalarImpl::Utf8("x".to_string())),
        Some(ScalarImpl::Bool(true)),
    ]);
    let bytes = encode(value.clone());
    assert_round_trip(value, ty.clone());
    let swapped = schema(vec![DataType::Boolean, DataType::Varchar, DataType::Int32]);
    assert!(decode(&bytes, &swapped).is_err());
}

#[test]
fn struct_keeps_absent_fields() {
    let ty = schema(vec![DataType::Int64, DataType::Varchar, DataType::Date]);
    let fields = || vec![None, Some(ScalarImpl::Utf8("kept".to_string())), None];
    let bytes = encode(row(fields()));
    assert_eq!(decode(&bytes, &ty), Ok((Some(row(fields())), 0)));
    let all_absent = encode(row(vec![None, None]));
    assert_eq!(all_absent, vec![0x04, 0x00, 0x00, 0x00, 0x0A, 0x00, 0x0A, 0x00]);
    assert_eq!(
        decode(&all_absent, &schema(vec![DataType::Int16, DataType::Boolean])),
        Ok((Some(row(vec![None, None])), 0))
    );
}

#[test]
fn struct_without_fields_round_trips() {
    let bytes = encode(row(vec![]));
    assert_eq!(bytes, vec![0x00, 0x00, 0x00, 0x00]);
    assert_eq!(decode(&bytes, &schema(vec![])), Ok((Some(row(vec![])), 0)));
}

#[test]
fn nested_struct_round_trips() {
    let inner_ty = schema(vec![DataType::Int16, DataType::Interval]);
    let ty = schema(vec![DataType::Varchar, inner_ty, DataType::Float64]);
    let value = || {
        row(vec![
            Some(ScalarImpl::Utf8("outer".to_string())),
            Some(row(vec![
                Some(ScalarImpl::Int16(-3)),
                Some(ScalarImpl::Interval(IntervalUnit::new(1, 2, 3))),
            ])),
            Some(ScalarImpl::Float64(OrderedF64::from_bits(0.5f64.to_bits()))),
        ])
    };
    let bytes = encode(value());
    assert_eq!(decode(&bytes, &ty), Ok((Some(value()), 0)));
}

#[test]
fn struct_with_a_long_field_round_trips() {
    let long = "z".repeat(20_000);
    let ty = schema(vec![DataType::Varchar, DataType::Int32]);
    let value = || row(vec![Some(ScalarImpl::Utf8(long.clone())), Some(ScalarImpl::Int32(1))]);
    let bytes = encode(value());
    assert_eq!(decode(&bytes, &ty), Ok((Some(value()), 0)));
}

#[test]
fn struct_field_error_comes_up_unchanged() {
    let bytes = encode(row(vec![Some(ScalarImpl::Int32(7)), Some(ScalarImpl::Bool(true))]));
    let ty = schema(vec![DataType::Boolean, DataType::Boolean]);
    assert_eq!(decode(&bytes, &ty), Err(ValueEncodingError::InvalidBoolEncoding(7)));
    let ty = schema(vec![DataType::Int64, DataType::Boolean]);
    assert_eq!(decode(&bytes, &ty), Err(ValueEncodingError::Truncated));
}

#[test]
fn struct_with_a_broken_message_is_refused() {
    // The only field says that five bytes follow, and one does.
    let bytes = [0x03, 0x00, 0x00, 0x00, 0x0A, 0x05, 0x01];
    let ty = schema(vec![DataType::Int32]);
    assert_eq!(decode(&bytes, &ty), Err(ValueEncodingError::InvalidStructEncoding));
    // The body tag with the wire type of a plain number.
    let bytes = [0x02, 0x00, 0x00, 0x00, 0x08, 0x01];
    assert_eq!(decode(&bytes, &ty), Err(ValueEncodingError::InvalidStructEncoding));
    // A tag of zero.
    let bytes = [0x02, 0x00, 0x00, 0x00, 0x02, 0x00];
    let mut cursor: &[u8] = &bytes;
    assert_eq!(
        deserialize_struct(&vec![DataType::Int32], &mut cursor),
        Err(ValueEncodingError::InvalidStructEncoding)
    );
    assert_eq!(cursor.len(), 6);
}

#[test]
fn struct_field_may_be_followed_by_more_in_its_blob() {
    let bytes = [0x07, 0x00, 0x00, 0x00, 0x0A, 0x05, 0x07, 0x00, 0x00, 0x00, 0xFF];
    let ty = schema(vec![DataType::Int32]);
    assert_eq!(decode(&bytes, &ty), Ok((Some(row(vec![Some(ScalarImpl::Int32(7))])), 0)));
}

#[test]
fn struct_message_may_hold_fields_under_other_tags() {
    let bytes = [0x05, 0x00, 0x00, 0x00, 0x10, 0x2A, 0x0A, 0x01, 0x01];
    let ty = schema(vec![DataType::Boolean]);
    assert_eq!(decode(&bytes, &ty), Ok((Some(row(vec![Some(ScalarImpl::Bool(true))])), 0)));
}

#[test]
fn struct_cut_short_is_truncated() {
    let bytes = encode(row(vec![Some(ScalarImpl::Int32(7))]));
    let ty = schema(vec![DataType::Int32]);
    for cut in 1..bytes.len() {
        assert_eq!(decode(&bytes[..cut], &ty), Err(ValueEncodingError::Truncated));
    }
}

#[test]
fn copies_are_equal_to_what_they_copy() {
    for ty in supported_types() {
        assert_eq!(ty.clone(), ty);
    }
    let value = row(vec![
        None,
        Some(ScalarImpl::Utf8("copy".to_string())),
        Some(row(vec![Some(ScalarImpl::Int16(1))])),
        Some(ScalarImpl::List(ListValue::new(vec![Some(ScalarImpl::Bool(true)), None]))),
    ]);
    assert_eq!(value.clone(), value);
    let fields = StructValue::new(vec![Some(ScalarImpl::Int32(1)), None]);
    assert_eq!(fields.clone().fields(), fields.fields());
    let list = ListValue::new(vec![Some(ScalarImpl::Int32(1))]);
    assert_eq!(list.clone().values(), list.values());
}

#[test]
fn list_has_no_encoding() {
    let list = ScalarImpl::List(ListValue::new(vec![Some(ScalarImpl::Int32(1))]));
    assert_eq!(serialize_cell(&Some(list)), Err(ValueEncodingError::UnsupportedType));
    let ty = DataType::List { datatype: Box::new(DataType::Int32) };
    assert_eq!(decode(&[0x01], &ty), Err(ValueEncodingError::UnsupportedType));
    let inside = row(vec![
        Some(ScalarImpl::Int32(1)),
        Some(ScalarImpl::List(ListValue::new(vec![]))),
    ]);
    let mut buf = vec![0x55];
    assert_eq!(serialize_value(&inside, &mut buf), Err(ValueEncodingError::UnsupportedType));
    assert_eq!(buf, vec![0x55]);
}

#[test]
fn fixed_width_values_cut_short_are_truncated() {
    let widths = [
        (DataType::Boolean, 1),
        (DataType::Int16, 2),
        (DataType::Int32, 4),
        (DataType::Float32, 4),
        (DataType::Date, 4),
        (DataType::Int64, 8),
        (DataType::Float64, 8),
        (DataType::Timestampz, 8),
        (DataType::Time, 8),
        (DataType::Timestamp, 12),
        (DataType::Decimal, 16),
        (DataType::Interval, 16),
    ];
    for (ty, width) in widths {
        for len in 1..width {
            let bytes = vec![0u8; len];
            assert_eq!(decode(&bytes, &ty), Err(ValueEncodingError::Truncated));
        }
        let bytes = vec![0u8; width];
        let mut cursor: &[u8] = &bytes;
        assert!(deserialize_value(&ty, &mut cursor).is_ok() || ty == DataType::Date);
    }
}

#[test]
fn every_proper_prefix_of_an_encoding_is_truncated() {
    let cases = vec![
        (ScalarImpl::Int64(-5), DataType::Int64),
        (ScalarImpl::Utf8("hello".to_string()), DataType::Varchar),
        (ScalarImpl::Interval(IntervalUnit::new(1, 2, 3)), DataType::Interval),
        (ScalarImpl::NaiveDateTime(timestamp(10, 20)), DataType::Timestamp),
        (
            row(vec![Some(ScalarImpl::Int16(1)), None, Some(ScalarImpl::Utf8("s".to_string()))]),
            schema(vec![DataType::Int16, DataType::Int16, DataType::Varchar]),
        ),
    ];
    for (value, ty) in cases {
        let bytes = encode(value);
        for cut in 1..bytes.len() {
            assert_eq!(decode(&bytes[..cut], &ty), Err(ValueEncodingError::Truncated));
        }
    }
}

#[test]
fn declared_length_beyond_the_buffer_is_truncated() {
    let bytes = [0xFF, 0xFF, 0xFF, 0xFF, 0x61];
    assert_eq!(decode(&bytes, &DataType::Varchar), Err(ValueEncodingError::Truncated));
    assert_eq!(
        decode(&bytes, &schema(vec![DataType::Int32])),
        Err(ValueEncodingError::Truncated)
    );
    assert_eq!(decode(&[0x01, 0x00, 0x00], &DataType::Varchar), Err(ValueEncodingError::Truncated));
}

#[test]
fn cursor_moves_past_what_was_read_and_no_further() {
    let mut bytes = encode(ScalarImpl::Int32(42));
    bytes.extend_from_slice(&[0xAA, 0xBB]);
    let mut cursor: &[u8] = &bytes;
    assert_eq!(deserialize_cell(&mut cursor, &DataType::Int32), Ok(Some(ScalarImpl::Int32(42))));
    assert_eq!(cursor, &[0xAA, 0xBB]);

    let mut bytes = encode(ScalarImpl::Utf8("ab".to_string()));
    bytes.extend_from_slice(&[0x01]);
    let mut cursor: &[u8] = &bytes;
    assert_eq!(deserialize_str(&mut cursor), Ok("ab".to_string()));
    assert_eq!(deserialize_bool(&mut cursor), Ok(true));
    assert!(cursor.is_empty());
}

#[test]
fn cursor_stays_on_an_error() {
    let bytes = [0x02, 0x00, 0x00, 0x00, 0x61];
    let mut cursor: &[u8] = &bytes;
    assert_eq!(deserialize_cell(&mut cursor, &DataType::Varchar), Err(ValueEncodingError::Truncated));
    assert_eq!(cursor, &bytes);
    let mut cursor: &[u8] = &[0x09];
    assert_eq!(
        deserialize_value(&DataType::Boolean, &mut cursor),
        Err(ValueEncodingError::InvalidBoolEncoding(9))
    );
    assert_eq!(cursor, &[0x09]);
}

#[test]
fn present_values_take_at_least_one_byte() {
    let values = vec![
        ScalarImpl::Int16(0),
        ScalarImpl::Int32(0),
        ScalarImpl::Int64(0),
        ScalarImpl::Float32(OrderedF32::from_bits(0)),
        ScalarImpl::Float64(OrderedF64::from_bits(0)),
        ScalarImpl::Utf8(String::new()),
        ScalarImpl::Bool(false),
        ScalarImpl::Decimal(Decimal::unordered_deserialize([0; 16])),
        ScalarImpl::Interval(IntervalUnit::new(0, 0, 0)),
        ScalarImpl::NaiveDate(date(1)),
        ScalarImpl::NaiveDateTime(timestamp(0, 0)),
        ScalarImpl::NaiveTime(time(0, 0)),
        row(vec![]),
    ];
    for value in values {
        assert!(!encode(value).is_empty());
    }
}

#[test]
fn serialize_value_appends() {
    let mut buf = vec![0x01, 0x02];
    assert_eq!(serialize_value(&ScalarImpl::Int16(3), &mut buf), Ok(()));
    assert_eq!(buf, vec![0x01, 0x02, 0x03, 0x00]);
    assert_eq!(serialize_str(b"hi", &mut buf), Ok(()));
    assert_eq!(buf, vec![0x01, 0x02, 0x03, 0x00, 0x02, 0x00, 0x00, 0x00, 0x68, 0x69]);
    let mut buf = vec![0x09];
    let value = StructValue::new(vec![Some(ScalarImpl::Bool(true))]);
    assert_eq!(serialize_struct(&value, &mut buf), Ok(()));
    assert_eq!(buf, vec![0x09, 0x03, 0x00, 0x00, 0x00, 0x0A, 0x01, 0x01]);
}

#[test]
fn length_prefix_is_the_length_where_it_fits() {
    assert_eq!(length_prefix(0), Ok(0));
    assert_eq!(length_prefix(300), Ok(300));
    assert_eq!(length_prefix(u32::MAX as usize), Ok(u32::MAX));
    if let Some(too_long) = (u32::MAX as usize).checked_add(1) {
        assert_eq!(length_prefix(too_long), Err(ValueEncodingError::LengthOverflow));
        assert_eq!(length_prefix(usize::MAX), Err(ValueEncodingError::LengthOverflow));
    }
}

#[test]
fn length_that_does_not_fit_four_bytes_is_refused() {
    let len = u32::MAX as usize + 1;
    let mut payload: Vec<u8> = Vec::new();
    if payload.try_reserve_exact(len).is_err() {
        // No room for a payload of that size here: the length alone is tried
        // in the test of `length_prefix`.
        return;
    }
    payload.resize(len, 0);
    let mut buf = vec![0x07];
    assert_eq!(serialize_str(&payload, &mut buf), Err(ValueEncodingError::LengthOverflow));
    assert_eq!(buf, vec![0x07]);
}

#[test]
fn message_holds_blobs_in_order() {
    let blobs = vec![vec![1, 2, 3], vec![], vec![9; 200]];
    let message = encode_message(&blobs);
    assert_eq!(&message[..7], &[0x0A, 0x03, 1, 2, 3, 0x0A, 0x00]);
    assert_eq!(&message[7..10], &[0x0A, 0xC8, 0x01]);
    assert_eq!(message.len(), 10 + 200);
    assert_eq!(decode_message(&message), Ok(blobs));
    assert_eq!(decode_message(&[]), Ok(vec![]));
}

#[test]
fn message_passes_over_fields_it_does_not_know() {
    // Field 2 holds the number 5, field 3 two bytes, field 4 four bytes,
    // field 5 eight; field 1 holds the blobs.
    let mut message = vec![0x10, 0x05, 0x0A, 0x01, 0x61, 0x1A, 0x02, 0xFF, 0xFF];
    message.extend_from_slice(&[0x25, 1, 2, 3, 4]);
    message.extend_from_slice(&[0x29, 1, 2, 3, 4, 5, 6, 7, 8]);
    message.extend_from_slice(&[0x0A, 0x02, 0x62, 0x63]);
    assert_eq!(decode_message(&message), Ok(vec![vec![0x61], vec![0x62, 0x63]]));
}

#[test]
fn message_with_a_malformed_field_is_refused() {
    for message in [
        vec![0x0A],
        vec![0x0A, 0x02, 0x61],
        vec![0x08, 0x01],
        vec![0x00, 0x00],
        vec![0x0E, 0x00],
        vec![0x12, 0x05, 0x00],
        vec![0x14],
        vec![0x80, 0x80, 0x80, 0x80, 0x80, 0x80, 0x80, 0x80, 0x80, 0x80, 0x01],
    ] {
        assert_eq!(decode_message(&message), Err(ValueEncodingError::InvalidStructEncoding));
    }
}

#[test]
fn failure_to_read_a_message_is_an_invalid_struct_encoding() {
    let mut empty: &[u8] = &[];
    let failed = prost::encoding::decode_varint(&mut empty);
    assert!(failed.is_err());
    assert_eq!(refuse(failed), Err(ValueEncodingError::InvalidStructEncoding));
    let mut seven: &[u8] = &[0x07];
    assert_eq!(refuse(prost::encoding::decode_varint(&mut seven)), Ok(7));
}

#[test]
fn message_reads_lengths_written_the_long_way() {
    // The length 1 in two bytes.
    assert_eq!(decode_message(&[0x0A, 0x81, 0x00, 0x61]), Ok(vec![vec![0x61]]));
}
