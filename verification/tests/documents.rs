use bson::compound::StructSerializer;
use bson::compound::VariantInnerType;
use bson::compound::VariantSerializer;
use bson::error::Error;
use bson::serializer::Key;
use bson::serializer::Serializer;
use bson::value::Field;
use bson::value::Newtype;
use bson::value::Value;
use bson::value::HUMAN_READABLE_NEWTYPE;
use bson::value::RAW_ARRAY_NEWTYPE;
use bson::value::RAW_DOCUMENT_NEWTYPE;
use bson::value::UUID_NEWTYPE_NAME;
use std::collections::VecDeque;

fn with_lens(lens: Vec<i32>) -> Serializer {
    Serializer::new(Vec::new(), VecDeque::from(lens))
}

fn written(value: &Value, lens: Vec<i32>) -> Vec<u8> {
    let mut s = with_lens(lens);
    assert!(s.can_serialize(value));
    assert_eq!(s.serialize(value), Ok(()));
    assert_eq!(s.lengths_left(), 0);
    s.into_writer()
}

fn field(key: &'static str, value: Value) -> Field {
    Field { key, value, extended: Ok(Vec::new()) }
}

fn ready(key: &'static str, bytes: Vec<u8>) -> Field {
    Field { key, value: Value::Unit, extended: Ok(bytes) }
}

fn entry(key: &str, value: Value) -> (String, Value) {
    (key.to_string(), value)
}

fn point() -> Value {
    Value::Struct {
        name: "Point",
        fields: vec![field("x", Value::I32(1)), field("y", Value::I32(2))],
    }
}

const POINT: &[u8] = b"\x13\0\0\0\x10x\0\x01\0\0\0\x10y\0\x02\0\0\0\0";

#[test]
fn empty_document() {
    assert_eq!(written(&Value::Mapping(vec![]), vec![5]), vec![5, 0, 0, 0, 0]);
}

#[test]
fn struct_is_a_document() {
    assert_eq!(POINT.len(), 0x13);
    assert_eq!(written(&point(), vec![0x13]), POINT.to_vec());
}

#[test]
fn recorded_lengths_are_written_as_they_are() {
    let out = written(&Value::Mapping(vec![]), vec![-1]);
    assert_eq!(out, vec![0xff, 0xff, 0xff, 0xff, 0]);
}

#[test]
fn mapping_is_a_document() {
    let v = Value::Mapping(vec![entry("hello", Value::Str("world".to_string()))]);
    let expected = b"\x16\0\0\0\x02hello\0\x06\0\0\0world\0\0".to_vec();
    assert_eq!(written(&v, vec![0x16]), expected);
}

#[test]
fn array_elements_go_under_their_indices() {
    let elements = vec![
        Value::Str("awesome".to_string()),
        Value::F64(5.05f64.to_bits()),
        Value::I32(1986),
    ];
    let mut expected = b"\x31\0\0\0\x04BSON\0\x26\0\0\0".to_vec();
    expected.extend_from_slice(b"\x020\0\x08\0\0\0awesome\0");
    expected.extend_from_slice(b"\x011\0\x33\x33\x33\x33\x33\x33\x14\x40");
    expected.extend_from_slice(b"\x102\0\xc2\x07\0\0\0\0");
    let v = Value::Mapping(vec![entry("BSON", Value::Sequence(elements))]);
    assert_eq!(written(&v, vec![0x31, 0x26]), expected);
}

#[test]
fn tuples_and_tuple_structs_are_arrays() {
    let pair = || vec![Value::Bool(true), Value::Absent];
    let expected = b"\x17\0\0\0\x04t\0\x0c\0\0\0\x080\0\x01\x0a1\0\0\0".to_vec();
    let v = Value::Mapping(vec![entry("t", Value::Tuple(pair()))]);
    assert_eq!(written(&v, vec![0x17, 0x0c]), expected);
    let v = Value::Mapping(vec![entry("t", Value::TupleStruct { name: "Pair", elements: pair() })]);
    assert_eq!(written(&v, vec![0x17, 0x0c]), expected);
}

#[test]
fn eleven_elements_have_a_key_of_two_digits() {
    let units = (0..11).map(|_| Value::Unit).collect();
    let v = Value::Mapping(vec![entry("a", Value::Sequence(units))]);
    let mut expected = vec![0x2f, 0, 0, 0, 0x04, b'a', 0, 0x27, 0, 0, 0];
    for i in 0..11 {
        expected.push(0x0a);
        expected.extend_from_slice(format!("{}", i).as_bytes());
        expected.push(0);
    }
    expected.extend_from_slice(&[0, 0]);
    assert_eq!(expected.len(), 0x2f);
    assert_eq!(written(&v, vec![0x2f, 0x27]), expected);
}

#[test]
fn newtype_variant_is_a_document_with_one_element() {
    let v = Value::NewtypeVariant {
        name: "Shape",
        variant_index: 1,
        variant: "Circle",
        value: Box::new(Value::I32(3)),
    };
    assert_eq!(written(&v, vec![0x11]), b"\x11\0\0\0\x10Circle\0\x03\0\0\0\0".to_vec());
}

#[test]
fn tuple_variant_is_two_documents() {
    let v = Value::TupleVariant {
        name: "Foo",
        variant_index: 0,
        variant: "Bar",
        elements: vec![Value::I32(1), Value::I32(2), Value::I32(3)],
    };
    let expected =
        b"\x24\0\0\0\x04Bar\0\x1a\0\0\0\x100\0\x01\0\0\0\x101\0\x02\0\0\0\x102\0\x03\0\0\0\0\0";
    assert_eq!(written(&v, vec![0x24, 0x1a]), expected.to_vec());
}

#[test]
fn struct_variant_is_two_documents() {
    let v = Value::StructVariant {
        name: "Foo",
        variant_index: 0,
        variant: "Bar",
        fields: vec![field("a", Value::I32(1))],
    };
    let expected = b"\x16\0\0\0\x03Bar\0\x0c\0\0\0\x10a\0\x01\0\0\0\0\0";
    assert_eq!(written(&v, vec![0x16, 0x0c]), expected.to_vec());
}

#[test]
fn variant_name_with_nul_is_refused() {
    let v = Value::TupleVariant {
        name: "Foo",
        variant_index: 0,
        variant: "B\0r",
        elements: vec![],
    };
    let mut s = with_lens(vec![1, 2]);
    assert_eq!(s.serialize(&v), Err(Error::InvalidCString("B\0r".to_string())));
    assert_eq!(s.lengths_left(), 1);
    assert_eq!(s.into_writer(), vec![1, 0, 0, 0, 0x04]);
}

#[test]
fn key_with_nul_leaves_what_came_before() {
    let v = Value::Mapping(vec![entry("a", Value::I32(1)), entry("b\0", Value::I32(2))]);
    let mut s = with_lens(vec![9]);
    assert_eq!(s.serialize(&v), Err(Error::InvalidCString("b\0".to_string())));
    assert_eq!(s.into_writer(), b"\x09\0\0\0\x10a\0\x01\0\0\0\x10".to_vec());
}

#[test]
fn unsigned_overflow_inside_a_document() {
    let v = Value::Mapping(vec![entry("a", Value::U64(u64::MAX))]);
    let mut s = with_lens(vec![9]);
    assert_eq!(s.serialize(&v), Err(Error::UnsignedIntegerExceededRange(u64::MAX)));
    assert_eq!(s.into_writer(), vec![9, 0, 0, 0]);
}

#[test]
fn reserved_names_place_ready_bytes() {
    let oid: Vec<u8> = (1..13).collect();
    let v = Value::Mapping(vec![
        entry("_id", Value::Struct { name: "$oid", fields: vec![ready("$oid", oid.clone())] }),
        entry("n", Value::Struct { name: "$minKey", fields: vec![ready("$minKey", vec![])] }),
        entry(
            "r",
            Value::Struct {
                name: "$regularExpression",
                fields: vec![ready("pattern", b"a\0".to_vec()), ready("options", b"i\0".to_vec())],
            },
        ),
    ]);
    let mut expected = vec![0x20, 0, 0, 0, 0x07, b'_', b'i', b'd', 0];
    expected.extend_from_slice(&oid);
    expected.extend_from_slice(b"\xffn\0\x0br\0a\0i\0\0");
    assert_eq!(written(&v, vec![0x20]), expected);
}

#[test]
fn reserved_name_without_bytes_fails() {
    let broken = Field { key: "$oid", value: Value::Unit, extended: Err("not an id".to_string()) };
    let v = Value::Mapping(vec![entry("i", Value::Struct { name: "$oid", fields: vec![broken] })]);
    let mut s = with_lens(vec![9]);
    assert_eq!(
        s.serialize(&v),
        Err(Error::SerializationError { message: "not an id".to_string() })
    );
    assert_eq!(s.into_writer(), b"\x09\0\0\0\x07i\0".to_vec());
}

#[test]
fn reserved_name_cannot_stand_at_the_top() {
    let v = Value::Struct { name: "$date", fields: vec![ready("$date", vec![0; 8])] };
    let mut s = with_lens(vec![]);
    let message = "attempted to encode a non-document type at the top level: DateTime".to_string();
    assert_eq!(s.serialize(&v), Err(Error::SerializationError { message }));
}

#[test]
fn raw_parts_inside_a_document() {
    let raw = vec![5, 0, 0, 0, 0];
    let v = Value::Mapping(vec![
        entry(
            "d",
            Value::NewtypeStruct {
                name: RAW_DOCUMENT_NEWTYPE,
                value: Box::new(Value::Bytes(raw.clone())),
            },
        ),
        entry(
            "a",
            Value::NewtypeStruct {
                name: RAW_ARRAY_NEWTYPE,
                value: Box::new(Value::Bytes(raw.clone())),
            },
        ),
        entry(
            "u",
            Value::NewtypeStruct {
                name: UUID_NEWTYPE_NAME,
                value: Box::new(Value::Bytes(vec![7; 16])),
            },
        ),
    ]);
    let mut expected = vec![0x2d, 0, 0, 0];
    expected.extend_from_slice(b"\x03d\0\x05\0\0\0\0\x04a\0\x05\0\0\0\0\x05u\0\x10\0\0\0\x04");
    expected.extend_from_slice(&[7; 16]);
    expected.push(0);
    assert_eq!(expected.len(), 0x2d);
    assert_eq!(written(&v, vec![0x2d]), expected);
}

#[test]
fn plain_newtype_struct_is_what_is_inside() {
    let v = Value::NewtypeStruct { name: "Wrapper", value: Box::new(point()) };
    assert_eq!(written(&v, vec![0x13]), POINT.to_vec());
}

#[test]
fn human_readable_setting_comes_back() {
    let mut s = with_lens(vec![0x13]);
    assert!(!s.is_human_readable());
    assert_eq!(s.serialize_newtype_struct(HUMAN_READABLE_NEWTYPE, &point()), Ok(()));
    assert!(!s.is_human_readable());
    assert_eq!(s.into_writer(), POINT.to_vec());
    let mut s = with_lens(vec![]);
    assert!(s.serialize_newtype_struct(HUMAN_READABLE_NEWTYPE, &Value::Unit).is_err());
    assert!(!s.is_human_readable());
}

#[test]
fn newtype_names() {
    assert_eq!(Newtype::from_name(UUID_NEWTYPE_NAME), Newtype::Uuid);
    assert_eq!(Newtype::from_name(RAW_DOCUMENT_NEWTYPE), Newtype::RawDocument);
    assert_eq!(Newtype::from_name(RAW_ARRAY_NEWTYPE), Newtype::RawArray);
    assert_eq!(Newtype::from_name(HUMAN_READABLE_NEWTYPE), Newtype::HumanReadable);
    assert_eq!(Newtype::from_name("Metres"), Newtype::Plain);
}

#[test]
fn only_one_document_at_the_top() {
    let mut s = with_lens(vec![0x13, 0x13]);
    assert_eq!(s.serialize(&point()), Ok(()));
    let message =
        "attempted to encode a non-document type at the top level: EmbeddedDocument".to_string();
    assert_eq!(s.serialize(&point()), Err(Error::SerializationError { message }));
    assert_eq!(s.lengths_left(), 1);
    assert_eq!(s.into_writer(), POINT.to_vec());
}

#[test]
fn one_length_for_each_document() {
    let nested = Value::Sequence(vec![
        Value::Mapping(vec![]),
        Value::TupleVariant { name: "A", variant_index: 0, variant: "B", elements: vec![] },
        Value::Present(Box::new(Value::Tuple(vec![]))),
        Value::Bytes(vec![]),
    ]);
    let v = Value::Mapping(vec![entry("n", nested)]);
    assert!(!with_lens(vec![0; 5]).can_serialize(&v));
    assert!(with_lens(vec![0; 6]).can_serialize(&v));
    let mut s = with_lens(vec![0; 7]);
    assert!(s.can_serialize(&v));
    assert_eq!(s.serialize(&v), Ok(()));
    assert_eq!(s.lengths_left(), 1);
}

#[test]
fn scalars_need_no_length() {
    let mut s = with_lens(vec![]);
    s.set_next_key(Key::Static("k"));
    assert!(s.can_serialize(&Value::I32(1)));
    assert!(s.can_serialize(&Value::Str("short".to_string())));
    let id = Value::Struct { name: "$oid", fields: vec![ready("$oid", vec![0; 12])] };
    assert!(s.can_serialize(&id));
    assert!(!s.can_serialize(&point()));
}

#[test]
fn length_is_not_needed_after_a_failure() {
    let array = Value::Sequence(vec![]);
    let mut s = with_lens(vec![]);
    assert!(s.can_serialize(&array));
    let message = "attempted to encode a non-document type at the top level: Array".to_string();
    assert_eq!(s.serialize(&array), Err(Error::SerializationError { message }));

    let v = Value::Mapping(vec![entry("a", Value::U64(u64::MAX)), entry("p", point())]);
    let mut s = with_lens(vec![0]);
    assert!(s.can_serialize(&v));
    assert_eq!(s.serialize(&v), Err(Error::UnsignedIntegerExceededRange(u64::MAX)));

    let v = Value::Mapping(vec![entry("p", point()), entry("a", Value::U64(u64::MAX))]);
    assert!(!with_lens(vec![0]).can_serialize(&v));
    let v = Value::Mapping(vec![entry("p\0", point())]);
    assert!(with_lens(vec![0]).can_serialize(&v));
    let v = Value::StructVariant { name: "E", variant_index: 0, variant: "V\0", fields: vec![] };
    assert!(with_lens(vec![0]).can_serialize(&v));
    let v = Value::StructVariant { name: "E", variant_index: 0, variant: "V", fields: vec![] };
    assert!(!with_lens(vec![0]).can_serialize(&v));
    assert!(with_lens(vec![0, 0]).can_serialize(&v));

    let mut s = with_lens(vec![]);
    s.set_next_key(Key::Owned("k\0".to_string()));
    assert!(s.can_serialize(&point()));
    s.set_next_key(Key::Index(3));
    assert!(!s.can_serialize(&point()));
}

#[test]
fn setting_chooses_the_form() {
    let date = || Value::TwoForms {
        human_readable: Box::new(Value::Str("now".to_string())),
        compact: Box::new(Value::I64(7)),
    };
    let v = Value::Mapping(vec![
        entry("a", date()),
        entry("b", Value::NewtypeStruct {
            name: HUMAN_READABLE_NEWTYPE,
            value: Box::new(Value::Tuple(vec![date()])),
        }),
        entry("c", date()),
    ]);
    let mut expected = b"\0\0\0\0\x12a\0\x07\0\0\0\0\0\0\0".to_vec();
    expected.extend_from_slice(b"\x04b\0\x10\0\0\0\x020\0\x04\0\0\0now\0\0");
    expected.extend_from_slice(b"\x12c\0\x07\0\0\0\0\0\0\0\0");
    expected[0] = expected.len() as u8;
    assert_eq!(written(&v, vec![expected.len() as i32, 0x10]), expected);
}

#[test]
fn form_decides_what_is_needed_and_what_can_stand_at_the_top() {
    let v = || Value::TwoForms {
        human_readable: Box::new(point()),
        compact: Box::new(Value::I32(1)),
    };
    let mut s = with_lens(vec![]);
    assert!(s.can_serialize(&v()));
    let message = "attempted to encode a non-document type at the top level: Int32".to_string();
    assert_eq!(s.serialize(&v()), Err(Error::SerializationError { message }));
    let readable =
        Value::NewtypeStruct { name: HUMAN_READABLE_NEWTYPE, value: Box::new(v()) };
    assert!(!with_lens(vec![]).can_serialize(&readable));
    assert_eq!(written(&readable, vec![0x13]), POINT.to_vec());
}

#[test]
fn entering_a_newtype_struct() {
    let mut s = with_lens(vec![]);
    assert_eq!(s.enter_newtype("Metres"), Newtype::Plain);
    assert!(!s.is_human_readable());
    assert_eq!(s.enter_newtype(HUMAN_READABLE_NEWTYPE), Newtype::HumanReadable);
    assert!(s.is_human_readable());
    assert_eq!(s.enter_newtype(UUID_NEWTYPE_NAME), Newtype::Uuid);
    assert!(s.is_human_readable());
    s.set_next_key(Key::Static("u"));
    assert_eq!(s.serialize_bytes(&[1]), Ok(()));
    assert_eq!(s.into_writer(), vec![0x05, b'u', 0, 1, 0, 0, 0, 0x04, 1]);
    assert!(Newtype::HumanReadable.inside_human_readable(false));
    assert!(Newtype::Plain.inside_human_readable(true));
    assert!(!Newtype::RawArray.inside_human_readable(false));
}

#[test]
fn documents_step_by_step() {
    let mut s = with_lens(vec![0x13]);
    match s.serialize_struct("Point", 2) {
        Ok(StructSerializer::Document(mut d)) => {
            assert_eq!(d.serialize_field("x", &Value::I32(1)), Ok(()));
            assert_eq!(d.serialize_entry("y", &Value::I32(2)), Ok(()));
            assert_eq!(d.num_keys_serialized, 2);
            assert_eq!(d.end_doc(), Ok(()));
        }
        _ => panic!("not a document"),
    }
    assert_eq!(s.into_writer(), POINT.to_vec());
}

#[test]
fn arrays_step_by_step() {
    let mut s = with_lens(vec![0x0c]);
    s.set_next_key(Key::Static("t"));
    match s.serialize_seq(None) {
        Ok(mut d) => {
            assert_eq!(d.serialize_element(&Value::Bool(true)), Ok(()));
            assert!(d.serialize_element(&Value::U64(u64::MAX)).is_err());
            assert_eq!(d.num_keys_serialized, 1);
            assert_eq!(d.serialize_element(&Value::Absent), Ok(()));
            assert_eq!(d.end_doc(), Ok(()));
        }
        Err(_) => panic!("not opened"),
    }
    assert_eq!(s.into_writer(), b"\x04t\0\x0c\0\0\0\x080\0\x01\x0a1\0\0".to_vec());
}

#[test]
fn structs_step_by_step() {
    let mut s = with_lens(vec![0x0c]);
    match s.serialize_struct("Point", 1) {
        Ok(mut d) => {
            assert_eq!(d.serialize_field("x", &Value::I32(1), &Ok(vec![0xaa])), Ok(()));
            assert_eq!(d.end(), Ok(()));
        }
        Err(_) => panic!("not opened"),
    }
    assert_eq!(s.into_writer(), b"\x0c\0\0\0\x10x\0\x01\0\0\0\0".to_vec());
    let mut s = with_lens(vec![]);
    s.set_next_key(Key::Static("t"));
    match s.serialize_struct("$timestamp", 1) {
        Ok(mut d) => {
            let bytes = vec![1, 2, 3, 4, 5, 6, 7, 8];
            assert_eq!(d.serialize_field("$timestamp", &Value::Unit, &Ok(bytes)), Ok(()));
            assert_eq!(d.end(), Ok(()));
        }
        Err(_) => panic!("not opened"),
    }
    assert_eq!(s.into_writer(), vec![0x11, b't', 0, 1, 2, 3, 4, 5, 6, 7, 8]);
}

#[test]
fn variants_step_by_step() {
    let mut s = with_lens(vec![0x16, 0x0c]);
    match VariantSerializer::start(&mut s, "Bar", VariantInnerType::Struct) {
        Ok(mut v) => {
            assert_eq!(v.serialize_field("a", &Value::I32(1)), Ok(()));
            assert_eq!(v.num_elements_serialized, 1);
            assert_eq!(v.end(), Ok(()));
        }
        Err(_) => panic!("not opened"),
    }
    let expected = b"\x16\0\0\0\x03Bar\0\x0c\0\0\0\x10a\0\x01\0\0\0\0\0";
    assert_eq!(s.into_writer(), expected.to_vec());
    let mut s = with_lens(vec![0, 0]);
    match s.serialize_tuple_variant("Foo", 0, "Bar", 2) {
        Ok(mut v) => {
            assert_eq!(v.serialize_tuple_field(&Value::Absent), Ok(()));
            assert_eq!(v.serialize_element(Key::Static("z"), &Value::Absent), Ok(()));
            assert_eq!(v.serialize_tuple_field(&Value::Absent), Ok(()));
            assert_eq!(v.end_both(), Ok(()));
        }
        Err(_) => panic!("not opened"),
    }
    let expected = b"\0\0\0\0\x04Bar\0\0\0\0\0\x0a0\0\x0az\0\x0a2\0\0\0";
    assert_eq!(s.into_writer(), expected.to_vec());
}

#[test]
fn output_goes_after_what_is_there() {
    let mut s = Serializer::new(vec![1, 2, 3], VecDeque::from(vec![0x13, 7]));
    assert_eq!(s.serialize(&point()), Ok(()));
    assert_eq!(s.lengths_left(), 1);
    let out = s.into_writer();
    assert_eq!(out[..3], [1, 2, 3]);
    assert_eq!(out[3..], *POINT);
}
