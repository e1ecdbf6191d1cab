//! What the bytes of an element say: which values they hold. This is put in terms of how bytes are
//! read, not of how they are written.

use crate::element;
use crate::element::BinarySubtype;
use crate::element::ElementType;
use crate::encoding;
use crate::little_endian;
use crate::model;
use crate::model::Outcome;
use crate::model::State;
use crate::reading;
use crate::reading::Element;
use crate::serializer::SerializerHint;
use crate::steps;
use crate::text;
use crate::value;
use crate::value::Field;
use crate::value::Value;
use vstd::prelude::*;

verus! {

/// Whether an element read from raw bytes holds a value, given whether the value is to show itself
/// in human-readable form.
pub open spec fn holds(v: Value, readable: bool, e: Element) -> bool
    decreases v,
{
    match v {
        Value::Bool(x) => e.kind is Boolean && e.body == seq![
            if x {
                1u8
            } else {
                0u8
            },
        ],
        Value::I8(x) => holds_int32(x as int, e),
        Value::I16(x) => holds_int32(x as int, e),
        Value::I32(x) => holds_int32(x as int, e),
        Value::U8(x) => holds_int32(x as int, e),
        Value::U16(x) => holds_int32(x as int, e),
        Value::I64(x) => holds_int64(x as int, e),
        Value::U32(x) => holds_int64(x as int, e),
        Value::U64(x) => holds_int64(x as int, e),
        Value::F64(bits) => e.kind is Double && e.body.len() == 8 && little_endian::number(e.body)
            == bits,
        Value::Char(c) => e.kind is String && steps::is_string(seq![c], e.body),
        Value::Str(text) => e.kind is String && steps::is_string(text@, e.body),
        Value::UnitVariant { variant, .. } => e.kind is String && steps::is_string(
            variant@,
            e.body,
        ),
        Value::Bytes(bytes) => {
            ||| e.kind is Binary && steps::is_binary(BinarySubtype::Generic, bytes@, e.body)
            ||| e.kind is Binary && steps::is_binary(BinarySubtype::Uuid, bytes@, e.body)
            ||| e.kind is EmbeddedDocument && e.body == bytes@
            ||| e.kind is Array && e.body == bytes@
        },
        Value::Absent => e.kind is Null && e.body.len() == 0,
        Value::Unit => e.kind is Null && e.body.len() == 0,
        Value::UnitStruct { .. } => e.kind is Null && e.body.len() == 0,
        Value::Present(inside) => holds(*inside, readable, e),
        Value::TwoForms { human_readable, compact } => if readable {
            holds(*human_readable, readable, e)
        } else {
            holds(*compact, readable, e)
        },
        Value::NewtypeStruct { name, value } => holds(
            *value,
            readable || name@ == "$__bson_private_human_readable"@,
            e,
        ),
        Value::Sequence(elements) => e.kind is Array && {
            proof {
                lemma_elements_decrease(v, elements);
            }
            let inside = reading::read_document(e.body);
            inside is Some && inside->Some_0.len() == elements@.len() && forall|i: int|
                0 <= i < elements@.len() ==> (#[trigger] inside->Some_0[i]).key == text::decimal(
                    i as nat,
                ) && holds(elements@[i], readable, inside->Some_0[i])
        },
        Value::Tuple(elements) => e.kind is Array && {
            proof {
                lemma_elements_decrease(v, elements);
            }
            let inside = reading::read_document(e.body);
            inside is Some && inside->Some_0.len() == elements@.len() && forall|i: int|
                0 <= i < elements@.len() ==> (#[trigger] inside->Some_0[i]).key == text::decimal(
                    i as nat,
                ) && holds(elements@[i], readable, inside->Some_0[i])
        },
        Value::TupleStruct { elements, .. } => e.kind is Array && {
            proof {
                lemma_elements_decrease(v, elements);
            }
            let inside = reading::read_document(e.body);
            inside is Some && inside->Some_0.len() == elements@.len() && forall|i: int|
                0 <= i < elements@.len() ==> (#[trigger] inside->Some_0[i]).key == text::decimal(
                    i as nat,
                ) && holds(elements@[i], readable, inside->Some_0[i])
        },
        Value::Mapping(entries) => e.kind is EmbeddedDocument && {
            proof {
                lemma_entries_decrease(v, entries);
            }
            let inside = reading::read_document(e.body);
            inside is Some && inside->Some_0.len() == entries@.len() && forall|i: int|
                0 <= i < entries@.len() ==> (#[trigger] inside->Some_0[i]).key == entries@[i].0@
                    && holds(entries@[i].1, readable, inside->Some_0[i])
        },
        Value::Struct { name, fields } => match element::reserved_type(name@) {
            Some(value_type) => e.kind == value_type.spec_element_type() && e.body
                == Seq::new(fields@.len(), |i: int| fields@[i].extended->Ok_0@).flatten(),
            None => e.kind is EmbeddedDocument && {
                proof {
                    lemma_fields_decrease(v, fields);
                }
                let inside = reading::read_document(e.body);
                inside is Some && inside->Some_0.len() == fields@.len() && forall|i: int|
                    0 <= i < fields@.len() ==> (#[trigger] inside->Some_0[i]).key == fields@[i].key@
                        && holds(fields@[i].value, readable, inside->Some_0[i])
            },
        },
        Value::NewtypeVariant { variant, value, .. } => e.kind is EmbeddedDocument && {
            let inside = reading::read_document(e.body);
            inside is Some && inside->Some_0.len() == 1 && inside->Some_0[0].key == variant@
                && holds(*value, readable, inside->Some_0[0])
        },
        Value::TupleVariant { variant, elements, .. } => e.kind is EmbeddedDocument && {
            let outer = reading::read_document(e.body);
            let inner = outer->Some_0[0];
            outer is Some && outer->Some_0.len() == 1 && inner.key == variant@
                && inner.kind is Array && {
                proof {
                    lemma_elements_decrease(v, elements);
                }
                let inside = reading::read_document(inner.body);
                inside is Some && inside->Some_0.len() == elements@.len() && forall|i: int|
                    0 <= i < elements@.len() ==> (#[trigger] inside->Some_0[i]).key
                        == text::decimal(i as nat) && holds(elements@[i], readable, inside->Some_0[i])
            }
        },
        Value::StructVariant { variant, fields, .. } => e.kind is EmbeddedDocument && {
            let outer = reading::read_document(e.body);
            let inner = outer->Some_0[0];
            outer is Some && outer->Some_0.len() == 1 && inner.key == variant@
                && inner.kind is EmbeddedDocument && {
                proof {
                    lemma_fields_decrease(v, fields);
                }
                let inside = reading::read_document(inner.body);
                inside is Some && inside->Some_0.len() == fields@.len() && forall|i: int|
                    0 <= i < fields@.len() ==> (#[trigger] inside->Some_0[i]).key == fields@[i].key@
                        && holds(fields@[i].value, readable, inside->Some_0[i])
            }
        },
    }
}

/// Whether an element is a 32-bit integer that is read as the given number.
pub open spec fn holds_int32(n: int, e: Element) -> bool {
    e.kind is Int32 && e.body.len() == 4 && little_endian::read_i32(e.body) == n
}

/// Whether an element is a 64-bit integer that is read as the given number.
pub open spec fn holds_int64(n: int, e: Element) -> bool {
    e.kind is Int64 && e.body.len() == 8 && little_endian::read_i64(e.body) == n
}

/// The elements of an array are smaller than the value that holds them.
pub proof fn lemma_elements_decrease(v: Value, elements: Vec<Value>)
    requires
        decreases_to!(v => elements),
    ensures
        forall|i: int| 0 <= i < elements@.len() ==> decreases_to!(v => #[trigger] elements@[i]),
{
    assert forall|i: int| 0 <= i < elements@.len() implies decreases_to!(
        v => #[trigger] elements@[i]) by {
        assert(decreases_to!(elements => elements@));
        assert(decreases_to!(elements@ => elements@[i]));
    }
}

/// The values of entries are smaller than the value that holds them.
pub proof fn lemma_entries_decrease(v: Value, entries: Vec<(String, Value)>)
    requires
        decreases_to!(v => entries),
    ensures
        forall|i: int| 0 <= i < entries@.len() ==> decreases_to!(v => (#[trigger] entries@[i]).1),
{
    assert forall|i: int| 0 <= i < entries@.len() implies decreases_to!(
        v => (#[trigger] entries@[i]).1) by {
        assert(decreases_to!(entries => entries@));
        assert(decreases_to!(entries@ => entries@[i]));
        assert(decreases_to!(entries@[i] => entries@[i].1));
    }
}

/// The values of fields are smaller than the value that holds them.
pub proof fn lemma_fields_decrease(v: Value, fields: Vec<Field>)
    requires
        decreases_to!(v => fields),
    ensures
        forall|i: int| 0 <= i < fields@.len() ==> decreases_to!(v => (#[trigger] fields@[i]).value),
{
    assert forall|i: int| 0 <= i < fields@.len() implies decreases_to!(
        v => (#[trigger] fields@[i]).value) by {
        assert(decreases_to!(fields => fields@));
        assert(decreases_to!(fields@ => fields@[i]));
        assert(decreases_to!(fields@[i] => fields@[i].value));
    }
}

proof fn lemma_contribution(fields: Seq<Field>, i: nat)
    requires
        i <= fields.len(),
    ensures
        encoding::contribution(fields, i) matches Some(bytes) ==> bytes == Seq::new(
            (fields.len() - i) as nat,
            |j: int| fields[i + j].extended->Ok_0@,
        ).flatten(),
    decreases fields.len() - i,
{
    let parts = Seq::new((fields.len() - i) as nat, |j: int| fields[i + j].extended->Ok_0@);
    if i < fields.len() {
        lemma_contribution(fields, i + 1);
        let later = Seq::new(
            (fields.len() - (i + 1)) as nat,
            |j: int| fields[i + 1 + j].extended->Ok_0@,
        );
        assert(parts.drop_first() =~= later);
        assert(parts.first() == fields[i as int].extended->Ok_0@);
    } else {
        assert(parts =~= seq![]);
    }
}

proof fn lemma_scalar_holds(v: Value, hint: SerializerHint, readable: bool, e: Element)
    requires
        v !is Present,
        v !is TwoForms,
        v !is NewtypeStruct,
        !model::is_container(v),
        encoding::built_scalar(v, hint) matches Some(b) && e.kind == b.kind && e.body
            == encoding::node_bytes(b.node),
    ensures
        holds(v, readable, e),
{
    match v {
        Value::I8(x) => little_endian::law_i32_reads_back(x as i32),
        Value::I16(x) => little_endian::law_i32_reads_back(x as i32),
        Value::I32(x) => little_endian::law_i32_reads_back(x),
        Value::U8(x) => little_endian::law_i32_reads_back(x as i32),
        Value::U16(x) => little_endian::law_i32_reads_back(x as i32),
        Value::I64(x) => little_endian::law_i64_reads_back(x),
        Value::U32(x) => little_endian::law_i64_reads_back(x as i64),
        Value::U64(x) => little_endian::law_i64_reads_back(x as i64),
        Value::F64(bits) => little_endian::law_u64_reads_back(bits),
        Value::Char(c) => steps::lemma_is_string(seq![c]),
        Value::Str(text) => steps::lemma_is_string(text@),
        Value::UnitVariant { variant, .. } => steps::lemma_is_string(variant@),
        Value::Bytes(bytes) => {
            if bytes@.len() <= element::MAX_BSON_SIZE {
                steps::lemma_is_binary(bytes@, BinarySubtype::Generic);
                steps::lemma_is_binary(bytes@, BinarySubtype::Uuid);
            }
        },
        Value::Struct { fields, .. } => {
            lemma_contribution(fields@, 0);
            assert(Seq::new(fields@.len(), |j: int| fields@[0 + j].extended->Ok_0@) =~= Seq::new(
                fields@.len(),
                |j: int| fields@[j].extended->Ok_0@,
            ));
        },
        _ => {},
    }
}

proof fn lemma_children_hold(v: Value, i: nat, hint: SerializerHint, readable: bool)
    requires
        encoding::built_children(v, i, hint, readable) matches Some(p)
            && reading::ready_items_tell_size(p.0) && encoding::items_bytes(p.0).len() <= i32::MAX,
        i <= model::count(v),
    ensures
        encoding::built_children(v, i, hint, readable) matches Some(p) && p.0.len() + i
            == model::count(v) && forall|j: int|
            #![trigger p.0[j]]
            0 <= j < p.0.len() ==> p.0[j].key == model::child_key(v, i + j) && holds(
                model::child(v, i + j),
                readable,
                reading::as_read(p.0)[j],
            ),
    decreases v, model::count(v) - i,
{
    if i < model::count(v) {
        let (items, _) = encoding::built_children(v, i, hint, readable)->Some_0;
        let c = model::child(v, i as int);
        let b = encoding::built(c, hint, readable)->Some_0;
        let (others, _) = encoding::built_children(v, i + 1, b.hint, readable)->Some_0;
        assert(items.drop_first() =~= others);
        model::lemma_child_decreases(v, i as int);
        law_built_holds(c, hint, readable, reading::as_read(items)[0]);
        lemma_children_hold(v, i + 1, b.hint, readable);
        assert forall|j: int| #![trigger items[j]] 0 <= j < items.len() implies items[j].key
            == model::child_key(v, i + j) && holds(
            model::child(v, i + j),
            readable,
            reading::as_read(items)[j],
        ) by {
            if j > 0 {
                assert(items[j] == others[j - 1]);
                assert(reading::as_read(items)[j] == reading::as_read(others)[j - 1]);
                assert(i + 1 + (j - 1) == i + j);
            }
        }
    }
}

/// An element with the bytes of what a value stands for holds the value, if its ready-made parts
/// tell their sizes and it is not too long for a 32-bit length.
pub proof fn law_built_holds(v: Value, hint: SerializerHint, readable: bool, e: Element)
    requires
        encoding::built(v, hint, readable) matches Some(b) && reading::ready_parts_tell_size(
            b.kind,
            b.node,
        ) && encoding::node_bytes(b.node).len() <= i32::MAX && e.kind == b.kind && e.body
            == encoding::node_bytes(b.node),
    ensures
        holds(v, readable, e),
    decreases v, model::count(v) + 2,
{
    match v {
        Value::Present(inside) => law_built_holds(*inside, hint, readable, e),
        Value::TwoForms { human_readable, compact } => if readable {
            law_built_holds(*human_readable, hint, readable, e);
        } else {
            law_built_holds(*compact, hint, readable, e);
        },
        Value::NewtypeStruct { name, value } => {
            value::law_newtype_names(name@);
            law_built_holds(
                *value,
                encoding::hint_inside(name@, hint),
                value::readable_inside(name@, readable),
                e,
            );
        },
        _ => if model::is_container(v) {
            lemma_container_holds(v, hint, readable, e);
        } else {
            lemma_scalar_holds(v, hint, readable, e);
        },
    }
}

/// Whether the elements read from a container are its values, each under its key.
spec fn children_held(v: Value, readable: bool, es: Seq<Element>) -> bool {
    &&& es.len() == model::count(v)
    &&& forall|i: int|
        #![trigger es[i]]
        0 <= i < es.len() ==> es[i].key == model::child_key(v, i) && holds(
            model::child(v, i),
            readable,
            es[i],
        )
}

/// The element in the outer document of a variant.
spec fn inner_element(v: Value, body: Seq<u8>) -> Element {
    match v {
        Value::TupleVariant { variant, .. } => Element {
            kind: ElementType::Array,
            key: variant@,
            body,
        },
        Value::StructVariant { variant, .. } => Element {
            kind: ElementType::EmbeddedDocument,
            key: variant@,
            body,
        },
        _ => Element { kind: ElementType::Null, key: seq![], body },
    }
}

proof fn lemma_document_holds(v: Value, readable: bool, e: Element, es: Seq<Element>)
    requires
        model::is_container(v),
        v !is TupleVariant,
        v !is StructVariant,
        e.kind == encoding::container_kind(v),
        reading::read_document(e.body) == Some(es),
        children_held(v, readable, es),
    ensures
        holds(v, readable, e),
{
    match v {
        Value::Sequence(elements) => {
            assert forall|i: int| 0 <= i < elements@.len() implies (#[trigger] es[i]).key
                == text::decimal(i as nat) && holds(elements@[i], readable, es[i]) by {}
        },
        Value::Tuple(elements) => {
            assert forall|i: int| 0 <= i < elements@.len() implies (#[trigger] es[i]).key
                == text::decimal(i as nat) && holds(elements@[i], readable, es[i]) by {}
        },
        Value::TupleStruct { elements, .. } => {
            assert forall|i: int| 0 <= i < elements@.len() implies (#[trigger] es[i]).key
                == text::decimal(i as nat) && holds(elements@[i], readable, es[i]) by {}
        },
        Value::Mapping(entries) => {
            assert forall|i: int| 0 <= i < entries@.len() implies (#[trigger] es[i]).key
                == entries@[i].0@ && holds(entries@[i].1, readable, es[i]) by {}
        },
        Value::Struct { fields, .. } => {
            assert forall|i: int| 0 <= i < fields@.len() implies (#[trigger] es[i]).key
                == fields@[i].key@ && holds(fields@[i].value, readable, es[i]) by {}
        },
        Value::NewtypeVariant { variant, value, .. } => {
            assert(es[0].key == variant@ && holds(*value, readable, es[0]));
        },
        _ => {},
    }
}

proof fn lemma_variant_holds(
    v: Value,
    readable: bool,
    e: Element,
    body: Seq<u8>,
    es: Seq<Element>,
)
    requires
        v is TupleVariant || v is StructVariant,
        e.kind == ElementType::EmbeddedDocument,
        reading::read_document(e.body) == Some(seq![inner_element(v, body)]),
        reading::read_document(body) == Some(es),
        children_held(v, readable, es),
    ensures
        holds(v, readable, e),
{
    match v {
        Value::TupleVariant { elements, .. } => {
            assert forall|i: int| 0 <= i < elements@.len() implies (#[trigger] es[i]).key
                == text::decimal(i as nat) && holds(elements@[i], readable, es[i]) by {}
        },
        Value::StructVariant { fields, .. } => {
            assert forall|i: int| 0 <= i < fields@.len() implies (#[trigger] es[i]).key
                == fields@[i].key@ && holds(fields@[i].value, readable, es[i]) by {}
        },
        _ => {},
    }
}

proof fn lemma_container_holds(v: Value, hint: SerializerHint, readable: bool, e: Element)
    requires
        model::is_container(v),
        encoding::built(v, hint, readable) matches Some(b) && reading::ready_parts_tell_size(
            b.kind,
            b.node,
        ) && encoding::node_bytes(b.node).len() <= i32::MAX && e.kind == b.kind && e.body
            == encoding::node_bytes(b.node),
    ensures
        holds(v, readable, e),
    decreases v, model::count(v) + 1,
{
    let b = encoding::built(v, hint, readable)->Some_0;
    let (items, _) = encoding::built_children(v, 0, hint, readable)->Some_0;
    let es = reading::as_read(items);
    let outer = b.node->Document_0;
    reading::law_built_reads_back(v, hint, readable);
    little_endian::law_i32_reads_back((encoding::items_bytes(outer).len() + 5) as i32);
    if v is TupleVariant || v is StructVariant {
        let item = outer[0];
        let body = encoding::node_bytes(item.node);
        assert(outer =~= seq![item]);
        encoding::lemma_one_item(item);
        little_endian::law_i32_reads_back((encoding::items_bytes(items).len() + 5) as i32);
        assert(reading::ready_items_tell_size(outer));
        assert(reading::ready_parts_tell_size(item.kind, item.node));
        lemma_children_hold(v, 0, hint, readable);
        lemma_children_held(v, readable, items);
        assert(reading::items_read_back(outer));
        assert(reading::reads_back(item.kind, item.node));
        assert(reading::as_read(outer) =~= seq![inner_element(v, body)]);
        lemma_variant_holds(v, readable, e, body, es);
    } else {
        lemma_children_hold(v, 0, hint, readable);
        lemma_children_held(v, readable, items);
        lemma_document_holds(v, readable, e, es);
    }
}

proof fn lemma_children_held(v: Value, readable: bool, items: Seq<encoding::Item>)
    requires
        items.len() == model::count(v),
        forall|j: int|
            #![trigger items[j]]
            0 <= j < items.len() ==> items[j].key == model::child_key(v, 0 + j) && holds(
                model::child(v, 0 + j),
                readable,
                reading::as_read(items)[j],
            ),
    ensures
        children_held(v, readable, reading::as_read(items)),
{
    let es = reading::as_read(items);
    assert forall|i: int| #![trigger es[i]] 0 <= i < es.len() implies es[i].key
        == model::child_key(v, i) && holds(model::child(v, i), readable, es[i]) by {
        assert(items[i].key == model::child_key(v, 0 + i));
    }
}

/// The document that a fresh serializer writes for a value, given the lengths of its documents,
/// holds that value: every number, text and bit pattern reads back as it was, every array has its
/// elements under their indices and every document its values under their keys, all of them and
/// no others, at every depth.
pub proof fn law_document_holds_value(v: Value, human_readable: bool)
    requires
        encoding::built(v, SerializerHint::Absent, human_readable) matches Some(b) && b.kind
            == ElementType::EmbeddedDocument && b.node is Document
            && reading::ready_parts_tell_size(b.kind, b.node) && encoding::node_bytes(b.node).len()
            <= i32::MAX,
    ensures
        ({
            let b = encoding::built(v, SerializerHint::Absent, human_readable)->Some_0;
            let s = State {
                out: seq![],
                lens: encoding::lengths(b.node),
                started: false,
                next_key: None,
                hint: SerializerHint::Absent,
                human_readable,
            };
            model::run(s, v) matches Outcome::Done(t) && holds(
                v,
                human_readable,
                (Element { kind: ElementType::EmbeddedDocument, key: seq![], body: t.out }),
            )
        }),
{
    let b = encoding::built(v, SerializerHint::Absent, human_readable)->Some_0;
    reading::law_document_reads_back(v, human_readable);
    law_built_holds(
        v,
        SerializerHint::Absent,
        human_readable,
        Element {
            kind: ElementType::EmbeddedDocument,
            key: seq![],
            body: encoding::node_bytes(b.node),
        },
    );
}

} // verus!
