use pgcodec::error::CodecError;
use pgcodec::id::Id;
use pgcodec::json::jsonb_document;
use pgcodec::number::{Number, NumberKind, TypeDescriptor};
use pgcodec::value::{is_homogeneous, IsNull, Value, ValueKind};

fn round_trip(n: Number) {
    let bytes = n.encode();
    assert_eq!(Number::decode(n.kind(), &bytes), Ok(n));
}

#[test]
fn numbers_round_trip_at_their_bounds() {
    for n in [
        Number::I8(i8::MIN), Number::I8(i8::MAX), Number::I8(0), Number::I8(-1),
        Number::U8(0), Number::U8(u8::MAX),
        Number::I16(i16::MIN), Number::I16(i16::MAX), Number::I16(0), Number::I16(-1),
        Number::U16(0), Number::U16(u16::MAX),
        Number::I32(i32::MIN), Number::I32(i32::MAX), Number::I32(0), Number::I32(-1),
        Number::U32(0), Number::U32(u32::MAX),
        Number::I64(i64::MIN), Number::I64(i64::MAX), Number::I64(0), Number::I64(-1),
        Number::U64(0), Number::U64(u64::MAX),
        Number::I128(i128::MIN), Number::I128(i128::MAX), Number::I128(0), Number::I128(-1),
        Number::U128(0), Number::U128(u128::MAX),
    ] {
        round_trip(n);
    }
}

#[test]
fn unsigned_values_are_remapped_onto_signed_wire_integers() {
    assert_eq!(Number::U16(0).encode(), vec![0x80, 0x00]);
    assert_eq!(Number::U16(u16::MAX).encode(), vec![0x7f, 0xff]);
    assert_eq!(Number::U32(0).encode(), vec![0x80, 0, 0, 0]);
    assert_eq!(Number::U64(0).encode(), vec![0x80, 0, 0, 0, 0, 0, 0, 0]);
    assert_eq!(Number::U64(u64::MAX).encode(), vec![0x7f, 0xff, 0xff, 0xff, 0xff, 0xff, 0xff, 0xff]);
    assert_eq!(Number::U64(1u64 << 63).encode(), vec![0; 8]);
}

#[test]
fn small_and_signed_values_are_sent_natively() {
    assert_eq!(Number::I8(-1).encode(), vec![0xff, 0xff]);
    assert_eq!(Number::U8(255).encode(), vec![0x00, 0xff]);
    assert_eq!(Number::I32(258).encode(), vec![0, 0, 1, 2]);
    assert_eq!(Number::I64(-2).encode(), vec![0xff, 0xff, 0xff, 0xff, 0xff, 0xff, 0xff, 0xfe]);
}

#[test]
fn wide_values_are_sent_as_decimal_text() {
    assert_eq!(Number::I128(-5).encode(), b"-5".to_vec());
    assert_eq!(Number::U128(u128::MAX).encode(), b"340282366920938463463374607431768211455".to_vec());
    assert_eq!(Number::I128(i128::MIN).encode(), b"-170141183460469231731687303715884105728".to_vec());
}

#[test]
fn malformed_number_bytes_are_rejected() {
    assert_eq!(Number::decode(NumberKind::I32, &[0, 1]), Err(CodecError::InvalidNumber));
    assert_eq!(Number::decode(NumberKind::I8, &[0x01, 0x00]), Err(CodecError::InvalidNumber));
    assert_eq!(Number::decode(NumberKind::U8, &[0xff, 0xff]), Err(CodecError::InvalidNumber));
    assert_eq!(Number::decode(NumberKind::U128, b"-1"), Err(CodecError::InvalidNumber));
    assert_eq!(Number::decode(NumberKind::I128, b"12a"), Err(CodecError::InvalidNumber));
    assert_eq!(Number::decode(NumberKind::I128, b""), Err(CodecError::InvalidNumber));
    assert_eq!(
        Number::decode(NumberKind::U128, b"340282366920938463463374607431768211456"),
        Err(CodecError::InvalidNumber)
    );
    assert_eq!(Number::decode(NumberKind::U128, b"-0"), Ok(Number::U128(0)));
}

#[test]
fn type_descriptors_follow_the_wire_width() {
    assert_eq!(Number::U8(1).type_info(), TypeDescriptor::Int2);
    assert_eq!(Number::U32(1).type_info(), TypeDescriptor::Int4);
    assert_eq!(Number::U64(1).type_info(), TypeDescriptor::Int8);
    assert_eq!(Number::I128(1).type_info(), TypeDescriptor::Text);
}

#[test]
fn text_and_number_in_one_sequence_are_rejected() {
    let mixed = Value::Array(vec![Value::String("a".to_string()), Value::Number(Number::I64(1))]);
    assert_eq!(mixed.encode(), Err(CodecError::HeterogeneousArray));
    let mut buf = vec![7u8];
    assert_eq!(mixed.encode_by_ref(&mut buf), Err(CodecError::HeterogeneousArray));
    assert_eq!(buf, vec![7u8]);
}

#[test]
fn numbers_of_two_representations_are_rejected() {
    let mixed = Value::Array(vec![Value::Number(Number::I64(1)), Value::Number(Number::I32(1))]);
    assert_eq!(mixed.encode(), Err(CodecError::HeterogeneousArray));
}

#[test]
fn three_equal_typed_numbers_encode() {
    let items = Value::Array(vec![
        Value::Number(Number::I16(1)),
        Value::Number(Number::I16(2)),
        Value::Number(Number::I16(3)),
    ]);
    assert_eq!(items.encode(), Ok(Some(vec![b'{', 0, 1, b',', 0, 2, b',', 0, 3, b'}'])));
}

#[test]
fn null_elements_are_written_as_the_null_token() {
    let items = Value::Array(vec![Value::Bool(true), Value::Null, Value::Bool(false)]);
    assert_eq!(items.encode(), Ok(Some(b"{\x01,NULL,\x00}".to_vec())));
}

#[test]
fn empty_sequence_goes_over_the_wire_as_null() {
    assert_eq!(Value::Array(vec![]).encode(), Value::Null.encode());
    assert_eq!(Value::Null.encode(), Ok(None));
    let mut buf = Vec::new();
    assert_eq!(Value::Array(vec![]).encode_by_ref(&mut buf), Ok(IsNull::Yes));
    assert!(buf.is_empty());
}

#[test]
fn maps_are_sent_as_jsonb_documents() {
    let map = Value::Object(vec![
        ("name".to_string(), Value::String("Doe \"J\"".to_string())),
        ("age".to_string(), Value::Number(Number::I64(-3))),
        ("tags".to_string(), Value::Array(vec![Value::Bool(true), Value::Null])),
    ]);
    let mut expected = vec![1u8];
    expected.extend_from_slice(br#"{"name":"Doe \"J\"","age":-3,"tags":[true,null]}"#);
    assert_eq!(map.encode(), Ok(Some(expected)));
}

#[test]
fn scalars_encode_natively() {
    assert_eq!(Value::Bool(true).encode(), Ok(Some(vec![1])));
    assert_eq!(Value::String("hé".to_string()).encode(), Ok(Some("hé".as_bytes().to_vec())));
    assert_eq!(Value::Number(Number::U16(0)).encode(), Ok(Some(vec![0x80, 0])));
}

#[test]
fn emptiness_and_zero_decide_updates() {
    assert!(Value::as_option_from_option(None).is_none());
    assert!(Value::as_option_from_option(Some(Value::Null)).is_none());
    assert!(Value::as_option_from_option(Some(Value::String(String::new()))).is_none());
    assert!(Value::as_option_from_option(Some(Value::Array(vec![]))).is_none());
    assert!(Value::as_option_from_option(Some(Value::Object(vec![]))).is_none());
    assert!(Value::as_option_from_option(Some(Value::Number(Number::U32(0)))).is_none());
    assert_eq!(
        Value::as_option_from_option(Some(Value::String("Doe".to_string()))),
        Some(Value::String("Doe".to_string()))
    );
    assert_eq!(Value::as_option_from_option(Some(Value::Bool(false))), Some(Value::Bool(false)));
}

#[test]
fn kinds_and_descriptors_of_values() {
    assert_eq!(Value::Null.type_id(), None);
    assert_eq!(Value::Number(Number::U8(1)).type_id(), Some(ValueKind::Number(NumberKind::U8)));
    assert!(Value::Object(vec![]).is_map());
    assert!(!Value::Array(vec![]).is_map());
    assert_eq!(Value::Object(vec![]).produces(), Some(TypeDescriptor::Jsonb));
    assert_eq!(Value::Array(vec![]).produces(), None);
    assert!(is_homogeneous(&vec![Value::Null, Value::Bool(true), Value::Null, Value::Bool(false)]));
    assert!(!is_homogeneous(&vec![Value::Bool(true), Value::Null, Value::String("x".to_string())]));
}

#[test]
fn identifier_hex_round_trip() {
    let id = Id::decode(&[0, 1, 2, 3, 0x7f, 0x80, 0xaa, 0xbb, 0xcc, 0xdd, 0xee, 0xff]).unwrap();
    let hex = id.to_hex();
    assert_eq!(hex, "000102037f80aabbccddeeff");
    assert_eq!(Id::parse_str(&hex).unwrap(), id);
    assert_eq!(id.encode(), vec![0, 1, 2, 3, 0x7f, 0x80, 0xaa, 0xbb, 0xcc, 0xdd, 0xee, 0xff]);
}

#[test]
fn identifier_of_ten_bytes_is_rejected() {
    assert_eq!(Id::decode(&[0u8; 10]), Err(CodecError::InvalidIdentifierLength));
    assert_eq!(Id::decode(&[0u8; 13]), Err(CodecError::InvalidIdentifierLength));
}

#[test]
fn malformed_identifier_strings_are_rejected() {
    assert_eq!(Id::parse_str("xyz"), Err(CodecError::InvalidIdentifierFormat));
    assert_eq!(Id::parse_str("000102037f80aabbccddeefg"), Err(CodecError::InvalidIdentifierFormat));
    assert_eq!(Id::parse_str("000102037f80aabbccddeeff00"), Err(CodecError::InvalidIdentifierFormat));
    let upper = Id::parse_str("000102037F80AABBCCDDEEFF").unwrap();
    assert_eq!(upper.to_hex(), "000102037f80aabbccddeeff");
}

#[test]
fn jsonb_framing_is_checked() {
    assert_eq!(jsonb_document(b"\x01{\"a\":1}"), Ok(&b"{\"a\":1}"[..]));
    assert_eq!(jsonb_document(b"{\"a\":1}"), Err(CodecError::UnsupportedDocument));
    assert_eq!(jsonb_document(b""), Err(CodecError::UnsupportedDocument));
}

#[test]
fn identifiers_order_byte_by_byte() {
    let low = Id::decode(&[0, 0, 0, 0, 0, 0, 0, 0, 0, 0, 0, 0xff]).unwrap();
    let high = Id::decode(&[0, 0, 0, 0, 0, 0, 0, 0, 0, 0, 1, 0]).unwrap();
    assert!(low < high);
}

#[test]
fn objects_repeating_a_key_are_rejected() {
    let repeated = Value::Object(vec![
        ("k".to_string(), Value::Bool(true)),
        ("k".to_string(), Value::Bool(false)),
    ]);
    assert_eq!(repeated.encode(), Err(CodecError::DuplicateField));
    let nested = Value::Array(vec![Value::Object(vec![
        ("a".to_string(), Value::Null),
        ("a".to_string(), Value::Null),
    ])]);
    assert_eq!(nested.encode(), Err(CodecError::DuplicateField));
}

#[test]
fn control_characters_are_escaped_in_json() {
    let text = Value::Object(vec![("t".to_string(), Value::String("a\"b\\c\nd\u{1}e\u{1f}".to_string()))]);
    let mut expected = vec![1u8];
    expected.extend_from_slice(br#"{"t":"a\"b\\c\nd\u0001e\u001f"}"#);
    assert_eq!(text.encode(), Ok(Some(expected)));
}
