//! How raw BSON bytes are read: where the elements of a document begin and end.

use crate::element;
use crate::element::BinarySubtype;
use crate::element::ElementType;
use crate::element::MAX_BSON_SIZE;
use crate::encoding;
use crate::encoding::Item;
use crate::encoding::Node;
use crate::little_endian;
use crate::model;
use crate::model::Outcome;
use crate::model::State;
use crate::serializer::SerializerHint;
use crate::text;
use crate::value;
use crate::value::Value;
use vstd::prelude::*;

verus! {

/// An element as it is read.
pub struct Element {
    pub kind: ElementType,
    pub key: Seq<char>,
    /// The bytes of the value.
    pub body: Seq<u8>,
}

/// The type that a code stands for.
pub open spec fn kind_of_code(code: u8) -> Option<ElementType> {
    if exists|kind: ElementType| #[trigger] kind.spec_code() == code {
        Some(choose|kind: ElementType| #[trigger] kind.spec_code() == code)
    } else {
        None
    }
}

/// How many bytes come before the first zero byte.
pub open spec fn zero_at(bytes: Seq<u8>) -> nat
    decreases bytes.len(),
{
    if bytes.len() == 0 || bytes[0] == 0 {
        0
    } else {
        1 + zero_at(bytes.drop_first())
    }
}

/// The 32-bit integer at the front.
pub open spec fn leading_i32(bytes: Seq<u8>) -> int {
    little_endian::read_i32(bytes.take(4))
}

/// How many bytes the value of an element of the given type takes, as its type and its own first
/// bytes tell.
pub open spec fn value_size(kind: ElementType, bytes: Seq<u8>) -> int {
    match kind {
        ElementType::Double => 8,
        ElementType::String => 4 + leading_i32(bytes),
        ElementType::EmbeddedDocument => leading_i32(bytes),
        ElementType::Array => leading_i32(bytes),
        ElementType::Binary => 5 + leading_i32(bytes),
        ElementType::Undefined => 0,
        ElementType::ObjectId => 12,
        ElementType::Boolean => 1,
        ElementType::DateTime => 8,
        ElementType::Null => 0,
        ElementType::RegularExpression => {
            let pattern: int = zero_at(bytes) + 1int;
            pattern + zero_at(bytes.skip(pattern)) + 1
        },
        ElementType::DbPointer => 16 + leading_i32(bytes),
        ElementType::JavaScriptCode => 4 + leading_i32(bytes),
        ElementType::Symbol => 4 + leading_i32(bytes),
        ElementType::JavaScriptCodeWithScope => leading_i32(bytes),
        ElementType::Int32 => 4,
        ElementType::Timestamp => 8,
        ElementType::Int64 => 8,
        ElementType::Decimal128 => 16,
        ElementType::MaxKey => 0,
        ElementType::MinKey => 0,
    }
}

/// Reads elements up to the zero byte that ends them, which must be the last byte.
pub open spec fn read_elements(bytes: Seq<u8>) -> Option<Seq<Element>>
    decreases bytes.len(),
{
    if bytes.len() == 0 {
        None
    } else if bytes[0] == 0 {
        if bytes.len() == 1 {
            Some(seq![])
        } else {
            None
        }
    } else {
        let key = bytes.skip(1).take(zero_at(bytes.skip(1)) as int);
        let value = bytes.skip(2 + key.len() as int);
        match kind_of_code(bytes[0]) {
            Some(kind) => {
                let n = value_size(kind, value);
                if 0 <= n <= value.len() && 2 + key.len() <= bytes.len() {
                    match read_elements(value.skip(n)) {
                        Some(elements) => Some(
                            seq![
                                Element {
                                    kind,
                                    key: vstd::utf8::decode_utf8(key),
                                    body: value.take(n),
                                },
                            ] + elements,
                        ),
                        None => None,
                    }
                } else {
                    None
                }
            },
            None => None,
        }
    }
}

/// Reads the elements of a document or an array; its length must be the number of its bytes.
pub open spec fn read_document(bytes: Seq<u8>) -> Option<Seq<Element>> {
    if bytes.len() >= 5 && leading_i32(bytes) == bytes.len() {
        read_elements(bytes.skip(4))
    } else {
        None
    }
}

/// Whether a value of the given type tells its own size, whatever comes after it.
pub open spec fn tells_size(kind: ElementType, bytes: Seq<u8>) -> bool {
    forall|after: Seq<u8>| #[trigger] value_size(kind, bytes + after) == bytes.len()
}

/// Whether the ready-made parts inside a value tell their own sizes.
pub open spec fn ready_parts_tell_size(kind: ElementType, node: Node) -> bool
    decreases node,
{
    match node {
        Node::Plain(_) => true,
        Node::Ready(bytes) => tells_size(kind, bytes),
        Node::Document(items) => ready_items_tell_size(items),
    }
}

/// Whether the ready-made parts inside some elements tell their own sizes.
pub open spec fn ready_items_tell_size(items: Seq<Item>) -> bool
    decreases items,
{
    items.len() == 0 || (ready_parts_tell_size(items[0].kind, items[0].node)
        && ready_items_tell_size(items.drop_first()))
}

/// The elements that are read from the bytes of some elements.
pub open spec fn as_read(items: Seq<Item>) -> Seq<Element> {
    Seq::new(
        items.len(),
        |i: int|
            Element {
                kind: items[i].kind,
                key: items[i].key,
                body: encoding::node_bytes(items[i].node),
            },
    )
}

/// Whether elements can be read back: their keys end where they should, and their values tell
/// their sizes.
pub open spec fn readable(items: Seq<Item>) -> bool {
    forall|i: int|
        #![trigger items[i]]
        0 <= i < items.len() ==> !text::has_nul(items[i].key) && tells_size(
            items[i].kind,
            encoding::node_bytes(items[i].node),
        )
}

proof fn lemma_kind_of_code(kind: ElementType)
    ensures
        kind_of_code(kind.spec_code()) == Some(kind),
        kind.spec_code() != 0,
{
    let chosen = choose|k: ElementType| #[trigger] k.spec_code() == kind.spec_code();
    element::law_codes_distinct(chosen, kind);
}

proof fn lemma_zero_at(before: Seq<u8>, after: Seq<u8>)
    requires
        !before.contains(0u8),
        after.len() > 0,
        after[0] == 0,
    ensures
        zero_at(before + after) == before.len(),
    decreases before.len(),
{
    let all = before + after;
    if before.len() > 0 {
        assert(before[0] != 0);
        assert(all.drop_first() =~= before.drop_first() + after);
        assert(!before.drop_first().contains(0u8)) by {
            if before.drop_first().contains(0u8) {
                let i = choose|i: int|
                    0 <= i < before.drop_first().len() && before.drop_first()[i] == 0u8;
                assert(before[i + 1] == 0u8);
            }
        }
        lemma_zero_at(before.drop_first(), after);
    }
}

/// A C string is read back up to its first zero byte, whatever comes after it.
pub proof fn law_cstring_reads_back(key: Seq<char>, after: Seq<u8>)
    requires
        !text::has_nul(key),
    ensures
        ({
            let bytes = model::cstring_bytes(key) + after;
            let n = zero_at(bytes) as int;
            &&& n + 1 == model::cstring_bytes(key).len()
            &&& vstd::utf8::decode_utf8(bytes.take(n)) == key
        }),
{
    let utf8 = vstd::utf8::encode_utf8(key);
    let bytes = model::cstring_bytes(key) + after;
    text::lemma_nul_is_zero_byte(key);
    assert(bytes =~= utf8 + (seq![0u8] + after));
    lemma_zero_at(utf8, seq![0u8] + after);
    assert(bytes.take(utf8.len() as int) =~= utf8);
    vstd::utf8::encode_utf8_decode_utf8(key);
}

/// An element is read in front of whatever can be read after it.
proof fn lemma_element_read(item: Item, tail: Seq<u8>)
    requires
        !text::has_nul(item.key),
        tells_size(item.kind, encoding::node_bytes(item.node)),
        read_elements(tail) is Some,
    ensures
        read_elements(
            encoding::head(item.kind, item.key) + encoding::node_bytes(item.node) + tail,
        ) == Some(
            seq![
                Element {
                    kind: item.kind,
                    key: item.key,
                    body: encoding::node_bytes(item.node),
                },
            ] + read_elements(tail)->Some_0,
        ),
{
    let body = encoding::node_bytes(item.node);
    let cstring = model::cstring_bytes(item.key);
    let bytes = encoding::head(item.kind, item.key) + body + tail;
    assert(bytes =~= seq![item.kind.spec_code()] + (cstring + (body + tail)));
    lemma_kind_of_code(item.kind);
    assert(bytes[0] == item.kind.spec_code());
    assert(bytes.skip(1) =~= cstring + (body + tail));
    law_cstring_reads_back(item.key, body + tail);
    let key = bytes.skip(1).take(zero_at(bytes.skip(1)) as int);
    assert(key.len() + 1 == cstring.len());
    let value = bytes.skip(2 + key.len() as int);
    assert(value =~= body + tail);
    assert(value_size(item.kind, value) == body.len());
    assert(value.take(body.len() as int) =~= body);
    assert(value.skip(body.len() as int) =~= tail);
}

/// Elements that can be read back are read back, with their types, keys and values.
pub proof fn law_elements_read_back(items: Seq<Item>)
    requires
        readable(items),
    ensures
        read_elements(encoding::items_bytes(items) + seq![0u8]) == Some(as_read(items)),
    decreases items.len(),
{
    let bytes = encoding::items_bytes(items) + seq![0u8];
    if items.len() == 0 {
        assert(encoding::items_bytes(items) =~= seq![]);
        assert(bytes =~= seq![0u8]);
        assert(as_read(items) =~= seq![]);
    } else {
        let item = items[0];
        let rest = items.drop_first();
        let body = encoding::node_bytes(item.node);
        let tail = encoding::items_bytes(rest) + seq![0u8];
        assert(readable(rest)) by {
            assert forall|i: int| #![trigger rest[i]] 0 <= i < rest.len() implies !text::has_nul(
                rest[i].key,
            ) && tells_size(rest[i].kind, encoding::node_bytes(rest[i].node)) by {
                assert(rest[i] == items[i + 1]);
            }
        }
        law_elements_read_back(rest);
        lemma_element_read(item, tail);
        assert(bytes =~= encoding::head(item.kind, item.key) + body + tail);
        let first = Element { kind: item.kind, key: item.key, body };
        assert(as_read(items) =~= seq![first] + as_read(rest));
    }
}

/// A string is read back from its bytes: its size, its text and the zero byte that ends it.
pub proof fn law_string_reads_back(text: Seq<char>)
    requires
        vstd::utf8::encode_utf8(text).len() < i32::MAX,
    ensures
        ({
            let bytes = model::string_bytes(text);
            let n = vstd::utf8::encode_utf8(text).len() as int;
            &&& bytes.len() == n + 5
            &&& leading_i32(bytes) == n + 1
            &&& vstd::utf8::decode_utf8(bytes.subrange(4, 4 + n)) == text
            &&& bytes.last() == 0
        }),
{
    let utf8 = vstd::utf8::encode_utf8(text);
    let size = (utf8.len() as i32 + 1) as i32;
    little_endian::law_i32_reads_back(size);
    lemma_leading_i32(size, model::cstring_bytes(text));
    assert(model::string_bytes(text).subrange(4, 4 + utf8.len() as int) =~= utf8);
    vstd::utf8::encode_utf8_decode_utf8(text);
}

/// A binary value is read back from its bytes: its size, its subtype, the size of the bytes alone
/// in the old subtype, and the bytes.
pub proof fn law_binary_reads_back(bytes: Seq<u8>, subtype: BinarySubtype)
    requires
        model::binary_size(bytes, subtype) <= MAX_BSON_SIZE,
    ensures
        ({
            let all = model::binary_bytes(bytes, subtype);
            let n = model::binary_size(bytes, subtype) as int;
            &&& all.len() == 5 + n
            &&& leading_i32(all) == n
            &&& all[4] == subtype.spec_code()
            &&& subtype is BinaryOld ==> leading_i32(all.skip(5)) == n - 4
            &&& all.skip(all.len() - bytes.len()) == bytes
        }),
{
    let n = model::binary_size(bytes, subtype) as i32;
    let size = little_endian::i32_bytes(n);
    let code = seq![subtype.spec_code()];
    let all = model::binary_bytes(bytes, subtype);
    little_endian::law_i32_reads_back(n);
    if subtype is BinaryOld {
        let inner = bytes.len() as i32;
        little_endian::law_i32_reads_back(inner);
        lemma_leading_i32(n, code + (little_endian::i32_bytes(inner) + bytes));
        assert(all =~= size + (code + (little_endian::i32_bytes(inner) + bytes)));
        lemma_leading_i32(inner, bytes);
        assert(all.skip(5) =~= little_endian::i32_bytes(inner) + bytes);
    } else {
        lemma_leading_i32(n, code + bytes);
        assert(all =~= size + (code + bytes));
    }
    assert(all.skip(all.len() - bytes.len()) =~= bytes);
}

/// Whether a value can be read back at every depth: it tells its size, and where it is a document
/// its elements are read from its bytes, and can themselves be read back.
pub open spec fn reads_back(kind: ElementType, node: Node) -> bool
    decreases node,
{
    &&& tells_size(kind, encoding::node_bytes(node))
    &&& match node {
        Node::Document(items) => {
            &&& read_document(encoding::node_bytes(node)) == Some(as_read(items))
            &&& items_read_back(items)
        },
        _ => true,
    }
}

/// Whether elements have keys that end where they should, and values that can be read back.
pub open spec fn items_read_back(items: Seq<Item>) -> bool
    decreases items,
{
    items.len() == 0 || {
        &&& !text::has_nul(items[0].key)
        &&& reads_back(items[0].kind, items[0].node)
        &&& items_read_back(items.drop_first())
    }
}

proof fn lemma_items_readable(items: Seq<Item>)
    requires
        items_read_back(items),
    ensures
        readable(items),
    decreases items.len(),
{
    if items.len() > 0 {
        let rest = items.drop_first();
        lemma_items_readable(rest);
        assert forall|i: int| #![trigger items[i]] 0 <= i < items.len() implies !text::has_nul(
            items[i].key,
        ) && tells_size(items[i].kind, encoding::node_bytes(items[i].node)) by {
            if i == 0 {
                assert(reads_back(items[0].kind, items[0].node));
            } else {
                assert(items[i] == rest[i - 1]);
            }
        }
    }
}

/// The integer in front is read whatever comes after it.
proof fn lemma_leading_i32(v: i32, after: Seq<u8>)
    ensures
        leading_i32(little_endian::i32_bytes(v) + after) == v,
{
    little_endian::law_i32_reads_back(v);
    assert((little_endian::i32_bytes(v) + after).take(4) =~= little_endian::i32_bytes(v));
}

proof fn lemma_document_reads_back(kind: ElementType, items: Seq<Item>)
    requires
        kind == ElementType::EmbeddedDocument || kind == ElementType::Array,
        items_read_back(items),
        encoding::items_bytes(items).len() + 5 <= i32::MAX,
    ensures
        reads_back(kind, Node::Document(items)),
{
    let bytes = encoding::node_bytes(Node::Document(items));
    let inside = encoding::items_bytes(items);
    let n = (inside.len() + 5) as i32;
    let size = little_endian::i32_bytes(n);
    little_endian::law_i32_reads_back(n);
    assert(bytes.len() == n);
    assert forall|after: Seq<u8>| #[trigger] value_size(kind, bytes + after) == bytes.len() by {
        lemma_leading_i32(n, inside + seq![0u8] + after);
        assert(bytes + after =~= size + (inside + seq![0u8] + after));
    }
    lemma_leading_i32(n, inside + seq![0u8]);
    assert(bytes =~= size + (inside + seq![0u8]));
    assert(bytes.skip(4) =~= inside + seq![0u8]);
    lemma_items_readable(items);
    law_elements_read_back(items);
}

proof fn lemma_plain_tells_size(v: Value, hint: SerializerHint)
    requires
        encoding::built_scalar(v, hint) matches Some(b) && b.node is Plain && encoding::node_bytes(
            b.node,
        ).len() <= i32::MAX,
    ensures
        encoding::built_scalar(v, hint) matches Some(b) && tells_size(
            b.kind,
            encoding::node_bytes(b.node),
        ),
{
    let b = encoding::built_scalar(v, hint)->Some_0;
    let bytes = encoding::node_bytes(b.node);
    assert forall|after: Seq<u8>| #[trigger] value_size(b.kind, bytes + after) == bytes.len() by {
        match v {
            Value::I8(x) => little_endian::law_i32_reads_back(x as i32),
            Value::I16(x) => little_endian::law_i32_reads_back(x as i32),
            Value::I32(x) => little_endian::law_i32_reads_back(x),
            Value::I64(x) => little_endian::law_i64_reads_back(x),
            Value::U8(x) => little_endian::law_i32_reads_back(x as i32),
            Value::U16(x) => little_endian::law_i32_reads_back(x as i32),
            Value::U32(x) => little_endian::law_i64_reads_back(x as i64),
            Value::U64(x) => little_endian::law_i64_reads_back(x as i64),
            Value::F64(bits) => little_endian::law_u64_reads_back(bits),
            Value::Char(c) => lemma_string_size(seq![c], after),
            Value::Str(text) => lemma_string_size(text@, after),
            Value::UnitVariant { variant, .. } => lemma_string_size(variant@, after),
            Value::Bytes(x) => {
                let n = x@.len() as i32;
                let uuid = seq![BinarySubtype::Uuid.spec_code()];
                let generic = seq![BinarySubtype::Generic.spec_code()];
                little_endian::law_i32_reads_back(n);
                lemma_leading_i32(n, uuid + x@ + after);
                lemma_leading_i32(n, generic + x@ + after);
                if hint == SerializerHint::Uuid {
                    assert(bytes + after =~= little_endian::i32_bytes(n) + (uuid + x@ + after));
                } else {
                    assert(bytes + after =~= little_endian::i32_bytes(n) + (generic + x@ + after));
                }
            },
            _ => {},
        }
    }
}

proof fn lemma_string_size(text: Seq<char>, after: Seq<u8>)
    requires
        model::string_bytes(text).len() <= i32::MAX,
    ensures
        value_size(ElementType::String, model::string_bytes(text) + after) == model::string_bytes(
            text,
        ).len(),
{
    let n = vstd::utf8::encode_utf8(text).len();
    let size = (n as i32 + 1) as i32;
    little_endian::law_i32_reads_back(size);
    lemma_leading_i32(size, model::cstring_bytes(text) + after);
    assert(model::string_bytes(text) + after =~= little_endian::i32_bytes(size) + (
    model::cstring_bytes(text) + after));
}

/// What a value stands for can be read back, at every depth, if its ready-made parts tell their
/// sizes and it is not too long for a 32-bit length.
#[verifier::rlimit(30)]
pub proof fn law_built_reads_back(v: Value, hint: SerializerHint, readable: bool)
    requires
        encoding::built(v, hint, readable) matches Some(b) && ready_parts_tell_size(b.kind, b.node)
            && encoding::node_bytes(b.node).len() <= i32::MAX,
    ensures
        encoding::built(v, hint, readable) matches Some(b) && reads_back(b.kind, b.node),
    decreases v, model::count(v) + 2,
{
    match v {
        Value::Present(inside) => law_built_reads_back(*inside, hint, readable),
        Value::TwoForms { human_readable, compact } => if readable {
            law_built_reads_back(*human_readable, hint, readable);
        } else {
            law_built_reads_back(*compact, hint, readable);
        },
        Value::NewtypeStruct { name, value } => {
            law_built_reads_back(
                *value,
                encoding::hint_inside(name@, hint),
                value::readable_inside(name@, readable),
            );
        },
        _ => if model::is_container(v) {
            lemma_container_reads_back(v, hint, readable);
        } else {
            let b = encoding::built_scalar(v, hint)->Some_0;
            if b.node is Plain {
                lemma_plain_tells_size(v, hint);
            }
        },
    }
}

proof fn lemma_container_reads_back(v: Value, hint: SerializerHint, readable: bool)
    requires
        model::is_container(v),
        encoding::built_children(v, 0, hint, readable) matches Some(p) && encoding::container_node(
            v,
            p.0,
        ) matches Some(node) && ready_parts_tell_size(encoding::container_kind(v), node)
            && encoding::node_bytes(node).len() <= i32::MAX,
    ensures
        reads_back(
            encoding::container_kind(v),
            encoding::container_node(
                v,
                encoding::built_children(v, 0, hint, readable)->Some_0.0,
            )->Some_0,
        ),
    decreases v, model::count(v) + 1,
{
    let (items, _) = encoding::built_children(v, 0, hint, readable)->Some_0;
    let kind = encoding::container_kind(v);
    let node = encoding::container_node(v, items)->Some_0;
    let outer = node->Document_0;
    little_endian::law_i32_reads_back((encoding::items_bytes(outer).len() + 5) as i32);
    if v is TupleVariant || v is StructVariant {
        let item = outer[0];
        encoding::lemma_one_item(item);
        assert(outer =~= seq![item]);
        little_endian::law_i32_reads_back((encoding::items_bytes(items).len() + 5) as i32);
        assert(ready_items_tell_size(outer));
        assert(ready_parts_tell_size(item.kind, item.node));
        lemma_children_read_back(v, 0, hint, readable);
        lemma_document_reads_back(item.kind, items);
        assert(items_read_back(outer.drop_first()));
        assert(items_read_back(outer));
        lemma_document_reads_back(kind, outer);
    } else {
        lemma_children_read_back(v, 0, hint, readable);
        lemma_document_reads_back(kind, items);
    }
}

proof fn lemma_children_read_back(v: Value, i: nat, hint: SerializerHint, readable: bool)
    requires
        encoding::built_children(v, i, hint, readable) matches Some(p) && ready_items_tell_size(p.0)
            && encoding::items_bytes(p.0).len() <= i32::MAX,
    ensures
        encoding::built_children(v, i, hint, readable) matches Some(p) && items_read_back(p.0),
    decreases v, model::count(v) - i,
{
    if i < model::count(v) {
        let (items, _) = encoding::built_children(v, i, hint, readable)->Some_0;
        let c = model::child(v, i as int);
        let b = encoding::built(c, hint, readable)->Some_0;
        let (others, _) = encoding::built_children(v, i + 1, b.hint, readable)->Some_0;
        assert(items.drop_first() =~= others);
        model::lemma_child_decreases(v, i as int);
        law_built_reads_back(c, hint, readable);
        lemma_children_read_back(v, i + 1, b.hint, readable);
    }
}

/// The document of a fresh serializer: given the lengths of its documents, a value that stands
/// for a document is written as that document, and its elements are read back from the bytes, at
/// every depth.
pub proof fn law_document_reads_back(v: Value, human_readable: bool)
    requires
        encoding::built(v, SerializerHint::Absent, human_readable) matches Some(b) && b.kind
            == ElementType::EmbeddedDocument && b.node is Document && ready_parts_tell_size(
            b.kind,
            b.node,
        ) && encoding::node_bytes(b.node).len() <= i32::MAX,
    ensures
        ({
            let b = encoding::built(v, SerializerHint::Absent, human_readable)->Some_0;
            let s = State {
                out: seq![],
                lens: encoding::lengths(b.node),
                started: false,
                next_key: None,
                hint: SerializerHint::Absent,
                human_readable,
            };
            &&& model::run(s, v) matches Outcome::Done(t)
            &&& t.out == encoding::node_bytes(b.node)
            &&& t.lens.len() == 0
            &&& read_document(t.out) == Some(as_read(b.node->Document_0))
            &&& reads_back(b.kind, b.node)
        }),
{
    let b = encoding::built(v, SerializerHint::Absent, human_readable)->Some_0;
    let s = State {
        out: seq![],
        lens: encoding::lengths(b.node),
        started: false,
        next_key: None,
        hint: SerializerHint::Absent,
        human_readable,
    };
    assert(encoding::lengths(b.node) =~= encoding::lengths(b.node) + seq![]);
    encoding::law_written(s, v, seq![]);
    assert(encoding::written(s, b, seq![]).out =~= encoding::node_bytes(b.node));
    law_built_reads_back(v, SerializerHint::Absent, human_readable);
}

} // verus!
