use bson::element::BinarySubtype;
use bson::element::ElementType;
use bson::element::ValueType;
use bson::element::MAX_BSON_SIZE;
use bson::error::Error;
use bson::serializer::Key;
use bson::serializer::Serializer;
use bson::serializer::SerializerHint;
use bson::value::Value;
use bson::value::RAW_ARRAY_NEWTYPE;
use bson::value::RAW_DOCUMENT_NEWTYPE;
use bson::value::UUID_NEWTYPE_NAME;
use std::collections::VecDeque;

fn fresh() -> Serializer {
    Serializer::new(Vec::new(), VecDeque::new())
}

fn keyed() -> Serializer {
    let mut s = fresh();
    s.set_next_key(Key::Static("k"));
    s
}

fn message(text: &str) -> Result<(), Error> {
    Err(Error::SerializationError { message: text.to_string() })
}

/// The bytes of `body` as an element of type `code` under the key "k".
fn element(code: u8, body: &[u8]) -> Vec<u8> {
    let mut bytes = vec![code, b'k', 0];
    bytes.extend_from_slice(body);
    bytes
}

#[test]
fn truth_values() {
    let mut s = keyed();
    assert_eq!(s.serialize_bool(true), Ok(()));
    assert_eq!(s.into_writer(), element(0x08, &[1]));
    let mut s = keyed();
    assert_eq!(s.serialize_bool(false), Ok(()));
    assert_eq!(s.into_writer(), element(0x08, &[0]));
}

#[test]
fn narrow_integers_are_written_as_wider_ones() {
    let mut s = keyed();
    assert_eq!(s.serialize_i8(-2), Ok(()));
    assert_eq!(s.into_writer(), element(0x10, &[0xfe, 0xff, 0xff, 0xff]));
    let mut s = keyed();
    assert_eq!(s.serialize_i16(-300), Ok(()));
    assert_eq!(s.into_writer(), element(0x10, &(-300i32).to_le_bytes()));
    let mut s = keyed();
    assert_eq!(s.serialize_u8(255), Ok(()));
    assert_eq!(s.into_writer(), element(0x10, &[255, 0, 0, 0]));
    let mut s = keyed();
    assert_eq!(s.serialize_u16(65535), Ok(()));
    assert_eq!(s.into_writer(), element(0x10, &[0xff, 0xff, 0, 0]));
    let mut s = keyed();
    assert_eq!(s.serialize_u32(4_294_967_295), Ok(()));
    assert_eq!(s.into_writer(), element(0x12, &[0xff, 0xff, 0xff, 0xff, 0, 0, 0, 0]));
}

#[test]
fn integers_are_little_endian() {
    for v in [0, 1, -1, 0x0102_0304, i32::MIN, i32::MAX] {
        let mut s = keyed();
        assert_eq!(s.serialize_i32(v), Ok(()));
        assert_eq!(s.into_writer(), element(0x10, &v.to_le_bytes()));
    }
    for v in [0, 1, -1, 0x0102_0304_0506_0708, i64::MIN, i64::MAX] {
        let mut s = keyed();
        assert_eq!(s.serialize_i64(v), Ok(()));
        assert_eq!(s.into_writer(), element(0x12, &v.to_le_bytes()));
    }
}

#[test]
fn unsigned_integers_must_fit_in_signed_ones() {
    let mut s = keyed();
    assert_eq!(s.serialize_u64(i64::MAX as u64), Ok(()));
    assert_eq!(s.into_writer(), element(0x12, &i64::MAX.to_le_bytes()));
    let over = i64::MAX as u64 + 1;
    let mut s = keyed();
    assert_eq!(s.serialize_u64(over), Err(Error::UnsignedIntegerExceededRange(over)));
    assert_eq!(s.into_writer(), Vec::<u8>::new());
}

#[test]
fn doubles_keep_their_bits() {
    for v in [0.0f64, -0.0, 1.5, -123.456, f64::INFINITY, f64::MIN_POSITIVE] {
        let mut s = keyed();
        assert_eq!(s.serialize_f64(v.to_bits()), Ok(()));
        assert_eq!(s.into_writer(), element(0x01, &v.to_le_bytes()));
    }
}

#[test]
fn texts_have_their_size_in_front() {
    let mut s = keyed();
    assert_eq!(s.serialize_str("hello"), Ok(()));
    assert_eq!(s.into_writer(), element(0x02, b"\x06\0\0\0hello\0"));
    let mut s = keyed();
    assert_eq!(s.serialize_str(""), Ok(()));
    assert_eq!(s.into_writer(), element(0x02, b"\x01\0\0\0\0"));
}

#[test]
fn texts_may_hold_nul() {
    let mut s = keyed();
    assert_eq!(s.serialize_str("a\0b"), Ok(()));
    assert_eq!(s.into_writer(), element(0x02, b"\x04\0\0\0a\0b\0"));
}

#[test]
fn characters_are_texts_of_one_character() {
    let mut s = keyed();
    assert_eq!(s.serialize_char('x'), Ok(()));
    assert_eq!(s.into_writer(), element(0x02, b"\x02\0\0\0x\0"));
    let mut s = keyed();
    assert_eq!(s.serialize_char('\u{1F600}'), Ok(()));
    assert_eq!(s.into_writer(), element(0x02, b"\x05\0\0\0\xf0\x9f\x98\x80\0"));
}

#[test]
fn absent_values_and_units_are_null() {
    let mut s = keyed();
    assert_eq!(s.serialize_none(), Ok(()));
    assert_eq!(s.into_writer(), element(0x0a, &[]));
    let mut s = keyed();
    assert_eq!(s.serialize_unit(), Ok(()));
    assert_eq!(s.into_writer(), element(0x0a, &[]));
    let mut s = keyed();
    assert_eq!(s.serialize_unit_struct("Nothing"), Ok(()));
    assert_eq!(s.into_writer(), element(0x0a, &[]));
}

#[test]
fn present_values_are_written_as_they_are() {
    let mut s = keyed();
    assert_eq!(s.serialize_some(&Value::I32(7)), Ok(()));
    assert_eq!(s.into_writer(), element(0x10, &[7, 0, 0, 0]));
}

#[test]
fn unit_variants_are_their_names() {
    let mut s = keyed();
    assert_eq!(s.serialize_unit_variant("Colour", 2, "Red"), Ok(()));
    assert_eq!(s.into_writer(), element(0x02, b"\x04\0\0\0Red\0"));
}

#[test]
fn bytes_are_generic_binary_without_a_hint() {
    let mut s = keyed();
    assert_eq!(s.serialize_bytes(&[9, 8, 7]), Ok(()));
    assert_eq!(s.into_writer(), element(0x05, &[3, 0, 0, 0, 0x00, 9, 8, 7]));
}

#[test]
fn uuid_newtype_makes_bytes_a_uuid() {
    let bytes: Vec<u8> = (0..16).collect();
    let mut s = keyed();
    let r = s.serialize_newtype_struct(UUID_NEWTYPE_NAME, &Value::Bytes(bytes.clone()));
    assert_eq!(r, Ok(()));
    let mut body = vec![16, 0, 0, 0, 0x04];
    body.extend_from_slice(&bytes);
    assert_eq!(s.into_writer(), element(0x05, &body));
}

#[test]
fn raw_newtypes_pass_bytes_through() {
    let raw = vec![5, 0, 0, 0, 0];
    let mut s = keyed();
    let r = s.serialize_newtype_struct(RAW_DOCUMENT_NEWTYPE, &Value::Bytes(raw.clone()));
    assert_eq!(r, Ok(()));
    assert_eq!(s.into_writer(), element(0x03, &raw));
    let mut s = keyed();
    let r = s.serialize_newtype_struct(RAW_ARRAY_NEWTYPE, &Value::Bytes(raw.clone()));
    assert_eq!(r, Ok(()));
    assert_eq!(s.into_writer(), element(0x04, &raw));
}

#[test]
fn raw_document_can_stand_at_the_top() {
    let raw = vec![5, 0, 0, 0, 0];
    let mut s = fresh();
    let r = s.serialize_newtype_struct(RAW_DOCUMENT_NEWTYPE, &Value::Bytes(raw.clone()));
    assert_eq!(r, Ok(()));
    assert_eq!(s.into_writer(), raw);
    let mut s = fresh();
    let r = s.serialize_newtype_struct(RAW_ARRAY_NEWTYPE, &Value::Bytes(raw));
    assert_eq!(r, message("attempted to encode a non-document type at the top level: Array"));
}

#[test]
fn hint_serves_one_value() {
    let mut s = keyed();
    let r = s.serialize_newtype_struct(UUID_NEWTYPE_NAME, &Value::Bytes(vec![1]));
    assert_eq!(r, Ok(()));
    s.set_next_key(Key::Static("k"));
    assert_eq!(s.serialize_bytes(&[2]), Ok(()));
    let mut expected = element(0x05, &[1, 0, 0, 0, 0x04, 1]);
    expected.extend_from_slice(&element(0x05, &[1, 0, 0, 0, 0x00, 2]));
    assert_eq!(s.into_writer(), expected);
}

#[test]
fn hint_waits_for_the_next_bytes() {
    let mut s = keyed();
    let r = s.serialize_newtype_struct(UUID_NEWTYPE_NAME, &Value::Bool(true));
    assert_eq!(r, Ok(()));
    s.set_next_key(Key::Static("k"));
    assert_eq!(s.serialize_bytes(&[2]), Ok(()));
    let mut expected = element(0x08, &[1]);
    expected.extend_from_slice(&element(0x05, &[1, 0, 0, 0, 0x04, 2]));
    assert_eq!(s.into_writer(), expected);
}

#[test]
fn hint_is_taken_once() {
    let mut hint = SerializerHint::RawArray;
    assert_eq!(hint.take(), SerializerHint::RawArray);
    assert_eq!(hint, SerializerHint::Absent);
    assert_eq!(hint.take(), SerializerHint::Absent);
}

#[test]
fn binary_is_limited() {
    let limit = MAX_BSON_SIZE as usize;
    let mut s = fresh();
    assert_eq!(s.write_binary(&vec![1; limit], BinarySubtype::Generic), Ok(()));
    let out = s.into_writer();
    assert_eq!(out.len(), limit + 5);
    assert_eq!(out[..6], [0, 0, 0, 1, 0, 1]);
    let mut s = fresh();
    let r = s.write_binary(&vec![1; limit + 1], BinarySubtype::Generic);
    assert_eq!(r, message("binary length 16777217 exceeded maximum size"));
    assert_eq!(s.into_writer(), Vec::<u8>::new());
}

#[test]
fn old_binary_repeats_its_size_and_counts_it() {
    let mut s = fresh();
    assert_eq!(s.write_binary(&[1, 2, 3], BinarySubtype::BinaryOld), Ok(()));
    assert_eq!(s.into_writer(), vec![7, 0, 0, 0, 0x02, 3, 0, 0, 0, 1, 2, 3]);
    let limit = MAX_BSON_SIZE as usize;
    let mut s = fresh();
    assert_eq!(s.write_binary(&vec![1; limit - 4], BinarySubtype::BinaryOld), Ok(()));
    let mut s = fresh();
    let r = s.write_binary(&vec![1; limit - 3], BinarySubtype::BinaryOld);
    assert_eq!(r, message("binary length 16777213 exceeded maximum size"));
}

#[test]
fn too_long_bytes_leave_only_the_key() {
    let mut s = keyed();
    let r = s.serialize_bytes(&vec![0; MAX_BSON_SIZE as usize + 1]);
    assert_eq!(r, message("binary length 16777217 exceeded maximum size"));
    assert_eq!(s.into_writer(), element(0x05, &[]));
}

#[test]
fn nothing_but_a_document_at_the_top() {
    let mut s = fresh();
    let r = s.serialize_i32(1);
    assert_eq!(r, message("attempted to encode a non-document type at the top level: Int32"));
    assert_eq!(s.into_writer(), Vec::<u8>::new());
    let mut s = fresh();
    let r = s.serialize_str("x");
    assert_eq!(r, message("attempted to encode a non-document type at the top level: String"));
    let mut s = fresh();
    let r = s.serialize(&Value::Sequence(vec![]));
    assert_eq!(r, message("attempted to encode a non-document type at the top level: Array"));
    let mut s = fresh();
    let r = s.serialize_none();
    assert_eq!(r, message("attempted to encode a non-document type at the top level: Null"));
    let mut s = fresh();
    assert_eq!(s.serialize_u64(u64::MAX), Err(Error::UnsignedIntegerExceededRange(u64::MAX)));
}

#[test]
fn keys_of_all_kinds() {
    let mut s = fresh();
    s.set_next_key(Key::Owned("own".to_string()));
    assert_eq!(s.serialize_none(), Ok(()));
    s.set_next_key(Key::Index(120));
    assert_eq!(s.serialize_none(), Ok(()));
    s.set_next_key(Key::Index(0));
    assert_eq!(s.serialize_none(), Ok(()));
    s.set_next_key(Key::Static(""));
    assert_eq!(s.serialize_none(), Ok(()));
    assert_eq!(s.into_writer(), b"\x0aown\0\x0a120\0\x0a0\0\x0a\0".to_vec());
}

#[test]
fn index_keys_are_decimal_numerals() {
    for i in [0, 9, 10, 99, 100, 123_456_789, usize::MAX] {
        let mut s = fresh();
        s.set_next_key(Key::Index(i));
        assert_eq!(s.write_key(ElementType::Null), Ok(()));
        let mut expected = vec![0x0a];
        expected.extend_from_slice(i.to_string().as_bytes());
        expected.push(0);
        assert_eq!(s.into_writer(), expected);
    }
}

#[test]
fn last_key_set_wins() {
    let mut s = fresh();
    s.set_next_key(Key::Static("first"));
    s.set_next_key(Key::Static("second"));
    assert_eq!(s.serialize_bool(true), Ok(()));
    assert_eq!(s.into_writer(), b"\x08second\0\x01".to_vec());
}

#[test]
fn key_with_nul_is_refused_after_the_type() {
    let mut s = fresh();
    s.set_next_key(Key::Owned("a\0b".to_string()));
    assert_eq!(s.serialize_bool(true), Err(Error::InvalidCString("a\0b".to_string())));
    assert_eq!(s.into_writer(), vec![0x08]);
}

#[test]
fn key_is_used_once() {
    let mut s = keyed();
    assert_eq!(s.serialize_bool(true), Ok(()));
    let r = s.serialize_bool(true);
    assert_eq!(r, message("attempted to encode a non-document type at the top level: Boolean"));
    assert_eq!(s.into_writer(), element(0x08, &[1]));
}

#[test]
fn c_strings() {
    let mut s = fresh();
    assert_eq!(s.write_cstring("h\u{e9}"), Ok(()));
    assert_eq!(s.into_writer(), vec![b'h', 0xc3, 0xa9, 0]);
    let mut s = fresh();
    assert_eq!(s.write_cstring("\0"), Err(Error::InvalidCString("\0".to_string())));
    assert_eq!(s.into_writer(), Vec::<u8>::new());
}

#[test]
fn strings() {
    let mut s = fresh();
    assert_eq!(s.write_string("h\u{e9}"), Ok(()));
    assert_eq!(s.into_writer(), vec![4, 0, 0, 0, b'h', 0xc3, 0xa9, 0]);
}

#[test]
fn lengths_are_written_in_order() {
    let mut s = Serializer::new(vec![0xaa], VecDeque::from(vec![1, -2]));
    assert_eq!(s.lengths_left(), 2);
    assert_eq!(s.write_next_len(), Ok(()));
    assert_eq!(s.write_next_len(), Ok(()));
    assert_eq!(s.lengths_left(), 0);
    assert_eq!(s.into_writer(), vec![0xaa, 1, 0, 0, 0, 0xfe, 0xff, 0xff, 0xff]);
}

#[test]
fn codes() {
    let all = [
        (ElementType::Double, 0x01, "Double"),
        (ElementType::String, 0x02, "String"),
        (ElementType::EmbeddedDocument, 0x03, "EmbeddedDocument"),
        (ElementType::Array, 0x04, "Array"),
        (ElementType::Binary, 0x05, "Binary"),
        (ElementType::Undefined, 0x06, "Undefined"),
        (ElementType::ObjectId, 0x07, "ObjectId"),
        (ElementType::Boolean, 0x08, "Boolean"),
        (ElementType::DateTime, 0x09, "DateTime"),
        (ElementType::Null, 0x0a, "Null"),
        (ElementType::RegularExpression, 0x0b, "RegularExpression"),
        (ElementType::DbPointer, 0x0c, "DbPointer"),
        (ElementType::JavaScriptCode, 0x0d, "JavaScriptCode"),
        (ElementType::Symbol, 0x0e, "Symbol"),
        (ElementType::JavaScriptCodeWithScope, 0x0f, "JavaScriptCodeWithScope"),
        (ElementType::Int32, 0x10, "Int32"),
        (ElementType::Timestamp, 0x11, "Timestamp"),
        (ElementType::Int64, 0x12, "Int64"),
        (ElementType::Decimal128, 0x13, "Decimal128"),
        (ElementType::MaxKey, 0x7f, "MaxKey"),
        (ElementType::MinKey, 0xff, "MinKey"),
    ];
    for (t, code, name) in all {
        assert_eq!(t.code(), code);
        assert_eq!(t.name(), name);
        assert_eq!(format!("{:?}", t), name);
    }
    assert_eq!(BinarySubtype::Generic.code(), 0);
    assert_eq!(BinarySubtype::BinaryOld.code(), 2);
    assert_eq!(BinarySubtype::Uuid.code(), 4);
    assert_eq!(BinarySubtype::UserDefined(0x90).code(), 0x90);
}

#[test]
fn reserved_struct_names() {
    let all = [
        ("$oid", ValueType::ObjectId, ElementType::ObjectId),
        ("$date", ValueType::DateTime, ElementType::DateTime),
        ("$binary", ValueType::Binary, ElementType::Binary),
        ("$timestamp", ValueType::Timestamp, ElementType::Timestamp),
        ("$minKey", ValueType::MinKey, ElementType::MinKey),
        ("$maxKey", ValueType::MaxKey, ElementType::MaxKey),
        ("$code", ValueType::JavaScriptCode, ElementType::JavaScriptCode),
        (
            "$codeWithScope",
            ValueType::JavaScriptCodeWithScope,
            ElementType::JavaScriptCodeWithScope,
        ),
        ("$symbol", ValueType::Symbol, ElementType::Symbol),
        ("$undefined", ValueType::Undefined, ElementType::Undefined),
        ("$regularExpression", ValueType::RegularExpression, ElementType::RegularExpression),
        ("$dbPointer", ValueType::DbPointer, ElementType::DbPointer),
        ("$numberDecimal", ValueType::Decimal128, ElementType::Decimal128),
    ];
    for (name, value_type, element_type) in all {
        assert_eq!(ValueType::from_name(name), Some(value_type));
        assert_eq!(value_type.element_type(), element_type);
    }
    assert_eq!(ValueType::from_name("$oi"), None);
    assert_eq!(ValueType::from_name("$oidx"), None);
    assert_eq!(ValueType::from_name(""), None);
    assert_eq!(ValueType::from_name("Point"), None);
}
