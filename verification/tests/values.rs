//! Type-codec tests: TYPE_INFO and value decoding for each supported kind.
use tds::codec::Reader;
use tds::datetime::Datetime;
use tds::typeinfo::{Collation, FixedLenType, TypeInfo, VarLenType};
use tds::types::{ColumnType, ColumnValue, DecimalValue};
use tds::{TdsError, TdsProtocolError};

fn decode_value(type_info_bytes: &[u8], value_bytes: &[u8], nullable: bool) -> Result<ColumnValue, TdsError> {
    let mut all: Vec<u8> = Vec::new();
    all.extend_from_slice(type_info_bytes);
    all.extend_from_slice(value_bytes);
    let mut r = Reader::new(all.as_slice());
    let ti = TypeInfo::decode(&mut r)?;
    ColumnValue::decode(&mut r, &ti, nullable)
}

#[test]
fn type_info_fixed_and_varlen() {
    let bytes = vec![0x38u8];
    let mut r = Reader::new(bytes.as_slice());
    assert_eq!(
        TypeInfo::decode(&mut r).unwrap(),
        TypeInfo::FixedLenType(FixedLenType::Int4)
    );
    let bytes = vec![0xE7u8, 0x64, 0x00, 0x09, 0x04, 0xD0, 0x00, 0x34];
    let mut r = Reader::new(bytes.as_slice());
    let ti = TypeInfo::decode(&mut r).unwrap();
    assert_eq!(
        ti,
        TypeInfo::VarLenType(
            VarLenType::NVarchar,
            100,
            Some(Collation { info: 0x00D0_0409, sortid: 0x34 })
        )
    );
    match ti {
        TypeInfo::VarLenType(_, _, Some(c)) => {
            assert_eq!(c.version(), 9);
            assert_eq!(c.sortid, 0x34);
        }
        _ => unreachable!(),
    }
}

#[test]
fn fixed_integer_values() {
    assert_eq!(
        decode_value(&[0x30], &[0x2A], true).unwrap(),
        ColumnValue::Value(ColumnType::I8(42))
    );
    assert_eq!(
        decode_value(&[0x34], &[0xFE, 0xFF], true).unwrap(),
        ColumnValue::Value(ColumnType::I16(-2))
    );
    assert_eq!(
        decode_value(&[0x38], &[0x9A, 0x02, 0x00, 0x00], true).unwrap(),
        ColumnValue::Value(ColumnType::I32(666))
    );
    assert_eq!(
        decode_value(&[0x7F], &[1, 0, 0, 0, 0, 0, 0, 0x80], true).unwrap(),
        ColumnValue::Value(ColumnType::I64(i64::MIN + 1))
    );
    assert_eq!(
        decode_value(&[0x32], &[1], true).unwrap(),
        ColumnValue::Value(ColumnType::Bool(true))
    );
}

#[test]
fn float_bits_round_trip() {
    let bits = 52.5f32.to_bits();
    let mut payload = bits.to_le_bytes().to_vec();
    assert_eq!(
        decode_value(&[0x3B], payload.as_slice(), true).unwrap(),
        ColumnValue::Value(ColumnType::F32(bits))
    );
    let bits64 = 4.2f64.to_bits();
    payload = bits64.to_le_bytes().to_vec();
    match decode_value(&[0x3E], payload.as_slice(), true).unwrap() {
        ColumnValue::Value(ColumnType::F64(b)) => assert_eq!(f64::from_bits(b), 4.2),
        other => panic!("unexpected value {:?}", other),
    }
}

#[test]
fn money8_boundary() {
    // 42.66 on the wire: high word 0, low word 426600.
    let payload = vec![0u8, 0, 0, 0, 0x68, 0x82, 0x06, 0x00];
    match decode_value(&[0x3C], payload.as_slice(), true).unwrap() {
        ColumnValue::Value(ColumnType::Money8(raw)) => {
            assert_eq!(raw, 426600);
            let as_f64 = raw as f64 / 10_000f64;
            assert!((as_f64 - 42.66).abs() < 1e-9);
        }
        other => panic!("unexpected value {:?}", other),
    }
}

#[test]
fn nvarchar_value_and_null_sentinel() {
    // "HelloWorld" as a non-null NVARCHAR value.
    let ti = vec![0xE7u8, 100, 0, 0, 0, 0, 0, 0];
    let mut payload = vec![20u8, 0];
    payload.extend_from_slice(&[
        72, 0, 101, 0, 108, 0, 108, 0, 111, 0, 87, 0, 111, 0, 114, 0, 108, 0, 100, 0,
    ]);
    assert_eq!(
        decode_value(ti.as_slice(), payload.as_slice(), false).unwrap(),
        ColumnValue::Value(ColumnType::String("HelloWorld".to_string()))
    );
    // The 0xFFFF sentinel gives NULL on a nullable column.
    let null_payload = vec![0xFFu8, 0xFF];
    assert_eq!(
        decode_value(ti.as_slice(), null_payload.as_slice(), true).unwrap(),
        ColumnValue::Null
    );
    // On a non-nullable column, the sentinel is a protocol error.
    match decode_value(ti.as_slice(), null_payload.as_slice(), false) {
        Err(TdsError::ProtocolError(_)) => {}
        other => panic!("expected a protocol error, got {:?}", other),
    }
}

#[test]
fn nvarchar_invalid_utf16_is_conversion_error() {
    let ti = vec![0xE7u8, 100, 0, 0, 0, 0, 0, 0];
    // A lone high surrogate cannot decode.
    let payload = vec![2u8, 0, 0x00, 0xD8];
    match decode_value(ti.as_slice(), payload.as_slice(), true) {
        Err(TdsError::Conversion(_)) => {}
        other => panic!("expected a conversion error, got {:?}", other),
    }
}

#[test]
fn varchar_uses_utf8() {
    // BIGVARCHAR with a two-byte UTF-8 character.
    let ti = vec![0xA7u8, 50, 0, 0, 0, 0, 0, 0];
    let text = "caf\u{e9}";
    let mut payload = vec![text.len() as u8, 0];
    payload.extend_from_slice(text.as_bytes());
    assert_eq!(
        decode_value(ti.as_slice(), payload.as_slice(), true).unwrap(),
        ColumnValue::Value(ColumnType::String(text.to_string()))
    );
}

#[test]
fn intn_lengths_and_null() {
    let ti = vec![0x26u8, 8];
    assert_eq!(
        decode_value(ti.as_slice(), &[4, 0x2A, 0, 0, 0], true).unwrap(),
        ColumnValue::Value(ColumnType::I32(42))
    );
    assert_eq!(
        decode_value(ti.as_slice(), &[0], true).unwrap(),
        ColumnValue::Null
    );
    match decode_value(ti.as_slice(), &[3, 0, 0, 0], true) {
        Err(TdsError::ProtocolError(_)) => {}
        other => panic!("expected a protocol error, got {:?}", other),
    }
}

#[test]
fn guid_round_trip() {
    let ti = vec![0x24u8, 16];
    let wire = vec![
        16u8, 220, 79, 12, 228, 32, 36, 167, 73, 171, 99, 192, 213, 30, 158, 183, 244,
    ];
    match decode_value(ti.as_slice(), wire.as_slice(), true).unwrap() {
        ColumnValue::Value(ColumnType::Guid(g)) => {
            assert_eq!(g.bytes, wire[1..].to_vec());
            assert_eq!(g.as_str(), "e40c4fdc-2420-49a7-ab63-c0d51e9eb7f4");
        }
        other => panic!("unexpected value {:?}", other),
    }
}

#[test]
fn decimal_scale_zero_exact() {
    // DECIMAL, precision 10 scale 0, 4-byte magnitude, positive and negative.
    let ti = vec![0x6Au8, 5, 10, 0];
    let pos = vec![5u8, 1, 0x39, 0x30, 0, 0];
    assert_eq!(
        decode_value(ti.as_slice(), pos.as_slice(), true).unwrap(),
        ColumnValue::Value(ColumnType::Decimal(DecimalValue {
            negative: false,
            magnitude: 12345,
            scale: 0
        }))
    );
    let neg = vec![5u8, 0, 0x39, 0x30, 0, 0];
    assert_eq!(
        decode_value(ti.as_slice(), neg.as_slice(), true).unwrap(),
        ColumnValue::Value(ColumnType::Decimal(DecimalValue {
            negative: true,
            magnitude: 12345,
            scale: 0
        }))
    );
}

#[test]
fn smalldatetime_and_datetime() {
    // smalldatetime: 2016-03-29 12:16.
    let payload = vec![0xD8u8, 0xA5, 0xE0, 0x02];
    match decode_value(&[0x3A], payload.as_slice(), true).unwrap() {
        ColumnValue::Value(ColumnType::Datetime(dt)) => {
            assert_eq!(
                dt,
                Datetime { year: 2016, month: 3, day: 29, hour: 12, minute: 16, second: 0, nanosecond: 0 }
            );
        }
        other => panic!("unexpected value {:?}", other),
    }
    // datetime: 2015-02-26 12:42:00 (42059 days, 13716000 ticks).
    let mut payload = 42059u32.to_le_bytes().to_vec();
    payload.extend_from_slice(&13716000u32.to_le_bytes());
    match decode_value(&[0x3D], payload.as_slice(), true).unwrap() {
        ColumnValue::Value(ColumnType::Datetime(dt)) => {
            assert_eq!(
                dt,
                Datetime { year: 2015, month: 2, day: 26, hour: 12, minute: 42, second: 0, nanosecond: 0 }
            );
        }
        other => panic!("unexpected value {:?}", other),
    }
}

#[test]
fn datetime2_scale_three() {
    // datetime2(3): 2016-04-07 23:19:27.587.
    let ti = vec![0x2Au8, 3];
    let payload = vec![8u8, 99, 62, 1, 5, 60, 59, 11];
    match decode_value(ti.as_slice(), payload.as_slice(), true).unwrap() {
        ColumnValue::Value(ColumnType::Datetime(dt)) => {
            assert_eq!(
                dt,
                Datetime {
                    year: 2016,
                    month: 4,
                    day: 7,
                    hour: 23,
                    minute: 19,
                    second: 27,
                    nanosecond: 587_000_000,
                }
            );
        }
        other => panic!("unexpected value {:?}", other),
    }
}

#[test]
fn datetime2_scale_bands() {
    // The same day at 12:34:56 (plus a .7 fraction where the scale allows)
    // under each scale band: 3-byte, 4-byte and 5-byte time fields.
    let day = [60u8, 59, 11]; // 2016-04-07
    let cases: Vec<(u8, Vec<u8>, u32)> = vec![
        (0, vec![240, 176, 0], 0),
        (2, vec![6, 30, 69], 700_000_000),
        (3, vec![60, 44, 179, 2], 700_000_000),
        (4, vec![88, 186, 255, 26], 700_000_000),
        (5, vec![112, 71, 253, 13, 1], 700_000_000),
        (7, vec![192, 231, 239, 118, 105], 700_000_000),
    ];
    for (scale, time_bytes, nanos) in cases {
        let ti = vec![0x2Au8, scale];
        let mut payload = vec![(time_bytes.len() + 3) as u8];
        payload.extend_from_slice(time_bytes.as_slice());
        payload.extend_from_slice(&day);
        match decode_value(ti.as_slice(), payload.as_slice(), true).unwrap() {
            ColumnValue::Value(ColumnType::Datetime(dt)) => {
                assert_eq!(
                    dt,
                    Datetime {
                        year: 2016,
                        month: 4,
                        day: 7,
                        hour: 12,
                        minute: 34,
                        second: 56,
                        nanosecond: nanos,
                    },
                    "scale {}",
                    scale
                );
            }
            other => panic!("unexpected value {:?}", other),
        }
    }
}

#[test]
fn datetimen_and_bitn_and_floatn() {
    // datetimen with a zero length is NULL.
    assert_eq!(
        decode_value(&[0x6F, 8], &[0], true).unwrap(),
        ColumnValue::Null
    );
    assert_eq!(
        decode_value(&[0x68, 1], &[1, 1], true).unwrap(),
        ColumnValue::Value(ColumnType::Bool(true))
    );
    let bits = 1.5f64.to_bits().to_le_bytes();
    let mut payload = vec![8u8];
    payload.extend_from_slice(&bits);
    match decode_value(&[0x6D, 8], payload.as_slice(), true).unwrap() {
        ColumnValue::Value(ColumnType::F64(b)) => assert_eq!(f64::from_bits(b), 1.5),
        other => panic!("unexpected value {:?}", other),
    }
}

#[test]
fn text_image_envelopes() {
    // TEXT: text pointer, timestamp, length, UTF-8 payload.
    let ti = vec![0x23u8, 0xFF, 0xFF, 0xFF, 0x7F, 0, 0, 0, 0, 0];
    let mut payload = vec![1u8, 0xAA];
    payload.extend_from_slice(&[0; 8]);
    payload.extend_from_slice(&12u32.to_le_bytes());
    payload.extend_from_slice(b"hello world!");
    assert_eq!(
        decode_value(ti.as_slice(), payload.as_slice(), true).unwrap(),
        ColumnValue::Value(ColumnType::String("hello world!".to_string()))
    );
    // A zero text-pointer length is NULL.
    assert_eq!(
        decode_value(ti.as_slice(), &[0], true).unwrap(),
        ColumnValue::Null
    );
    // IMAGE carries raw bytes.
    let ti = vec![0x22u8, 0xFF, 0xFF, 0xFF, 0x7F];
    let mut payload = vec![1u8, 0xAA];
    payload.extend_from_slice(&[0; 8]);
    payload.extend_from_slice(&3u32.to_le_bytes());
    payload.extend_from_slice(&[9, 8, 7]);
    assert_eq!(
        decode_value(ti.as_slice(), payload.as_slice(), true).unwrap(),
        ColumnValue::Value(ColumnType::Binary(vec![9, 8, 7]))
    );
}

#[test]
fn unsupported_type_tag_is_rejected() {
    // A known but unsupported kind is refused as such.
    let bytes = vec![0xF1u8];
    let mut r = Reader::new(bytes.as_slice());
    match TypeInfo::decode(&mut r) {
        Err(TdsError::Other(_)) => {}
        other => panic!("expected an unsupported-type error, got {:?}", other),
    }
    // A tag outside the wire format is a protocol error.
    let bytes = vec![0x00u8];
    let mut r = Reader::new(bytes.as_slice());
    match TypeInfo::decode(&mut r) {
        Err(TdsError::ProtocolError(TdsProtocolError::InvalidValue(_, _))) => {}
        other => panic!("expected a protocol error, got {:?}", other),
    }
}

#[test]
fn varbinary_value_and_null() {
    let ti = vec![0xA5u8, 16, 0];
    let payload = vec![3u8, 0, 0xDE, 0xAD, 0x01];
    assert_eq!(
        decode_value(ti.as_slice(), payload.as_slice(), true).unwrap(),
        ColumnValue::Value(ColumnType::Binary(vec![0xDE, 0xAD, 0x01]))
    );
    assert_eq!(
        decode_value(ti.as_slice(), &[0xFF, 0xFF], true).unwrap(),
        ColumnValue::Null
    );
}
