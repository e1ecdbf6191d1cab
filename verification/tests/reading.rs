use bson::serializer::Serializer;
use bson::value::Field;
use bson::value::Value;
use std::collections::VecDeque;

/// An element: its type code, its key, and the bytes of its value.
type Element = (u8, String, Vec<u8>);

fn leading_i32(bytes: &[u8]) -> usize {
    i32::from_le_bytes([bytes[0], bytes[1], bytes[2], bytes[3]]) as usize
}

fn value_size(code: u8, bytes: &[u8]) -> usize {
    match code {
        0x01 => 8,
        0x02 => 4 + leading_i32(bytes),
        0x03 => leading_i32(bytes),
        0x04 => leading_i32(bytes),
        0x05 => 5 + leading_i32(bytes),
        0x08 => 1,
        0x0a => 0,
        0x10 => 4,
        0x12 => 8,
        _ => panic!("unexpected type"),
    }
}

fn read_document(bytes: &[u8]) -> Vec<Element> {
    assert_eq!(leading_i32(bytes), bytes.len());
    let mut elements = Vec::new();
    let mut at = 4;
    while bytes[at] != 0 {
        let code = bytes[at];
        let mut end = at + 1;
        while bytes[end] != 0 {
            end += 1;
        }
        let key = String::from_utf8(bytes[at + 1..end].to_vec()).unwrap();
        let size = value_size(code, &bytes[end + 1..]);
        elements.push((code, key, bytes[end + 1..end + 1 + size].to_vec()));
        at = end + 1 + size;
    }
    assert_eq!(at + 1, bytes.len());
    elements
}

fn field(key: &'static str, value: Value) -> Field {
    Field { key, value, extended: Ok(Vec::new()) }
}

#[test]
fn document_with_true_lengths_reads_back() {
    let v = Value::Struct {
        name: "Everything",
        fields: vec![
            field("b", Value::Bool(true)),
            field("i", Value::I32(-5)),
            field("l", Value::U32(7)),
            field("d", Value::F64(0.25f64.to_bits())),
            field("s", Value::Str("h\u{e9}llo".to_string())),
            field("y", Value::Bytes(vec![1, 2])),
            field("n", Value::Absent),
            field("a", Value::Sequence(vec![Value::I32(1), Value::Str("x".to_string())])),
            field(
                "v",
                Value::TupleVariant {
                    name: "E",
                    variant_index: 0,
                    variant: "V",
                    elements: vec![Value::Bool(false)],
                },
            ),
        ],
    };
    let array: i32 = 4 + 7 + 9 + 1;
    let inner: i32 = 4 + 4 + 1;
    let outer: i32 = 4 + 3 + inner + 1;
    let whole: i32 = 4 + 4 + 7 + 11 + 11 + 14 + 10 + 3 + (3 + array) + (3 + outer) + 1;
    let lens = VecDeque::from(vec![whole, array, outer, inner]);
    let mut s = Serializer::new(Vec::new(), lens);
    assert_eq!(s.serialize(&v), Ok(()));
    assert_eq!(s.lengths_left(), 0);
    let elements = read_document(&s.into_writer());
    let keys: Vec<&str> = elements.iter().map(|e| e.1.as_str()).collect();
    assert_eq!(keys, vec!["b", "i", "l", "d", "s", "y", "n", "a", "v"]);
    assert_eq!(elements[0], (0x08, "b".to_string(), vec![1]));
    assert_eq!(elements[1], (0x10, "i".to_string(), (-5i32).to_le_bytes().to_vec()));
    assert_eq!(elements[2], (0x12, "l".to_string(), 7i64.to_le_bytes().to_vec()));
    assert_eq!(elements[3], (0x01, "d".to_string(), 0.25f64.to_le_bytes().to_vec()));
    assert_eq!(elements[4].2, b"\x07\0\0\0h\xc3\xa9llo\0".to_vec());
    assert_eq!(elements[5].2, vec![2, 0, 0, 0, 0, 1, 2]);
    assert_eq!(elements[6].2, Vec::<u8>::new());
    let inside = read_document(&elements[7].2);
    assert_eq!(inside[0], (0x10, "0".to_string(), vec![1, 0, 0, 0]));
    assert_eq!(inside[1], (0x02, "1".to_string(), b"\x02\0\0\0x\0".to_vec()));
    let variant = read_document(&elements[8].2);
    assert_eq!(variant.len(), 1);
    assert_eq!((variant[0].0, variant[0].1.as_str()), (0x04, "V"));
    assert_eq!(read_document(&variant[0].2), vec![(0x08, "0".to_string(), vec![0])]);
}
