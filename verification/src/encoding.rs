//! The documents that values stand for, and the bytes of these documents. Here the length in
//! front of a document is the number of its bytes, not a recorded one.

use crate::element;
use crate::element::BinarySubtype;
use crate::element::ElementType;
use crate::element::MAX_BSON_SIZE;
use crate::laws;
use crate::little_endian;
use crate::model;
use crate::model::Outcome;
use crate::model::State;
use crate::serializer::SerializerHint;
use crate::text;
use crate::value;
use crate::value::Field;
use crate::value::Newtype;
use crate::value::Value;
use vstd::prelude::*;

verus! {

/// The value of an element.
pub enum Node {
    /// One without elements inside.
    Plain(Seq<u8>),
    /// One whose bytes came ready-made.
    Ready(Seq<u8>),
    /// A document or an array.
    Document(Seq<Item>),
}

/// An element of a document or an array.
pub struct Item {
    pub kind: ElementType,
    pub key: Seq<char>,
    pub node: Node,
}

/// The bytes in front of the value of an element: its type and its key.
pub open spec fn head(kind: ElementType, key: Seq<char>) -> Seq<u8> {
    seq![kind.spec_code()] + model::cstring_bytes(key)
}

/// The bytes of the value of an element.
pub open spec fn node_bytes(node: Node) -> Seq<u8>
    decreases node,
{
    match node {
        Node::Plain(bytes) => bytes,
        Node::Ready(bytes) => bytes,
        Node::Document(items) => little_endian::i32_bytes(
            (items_bytes(items).len() + 5) as i32,
        ) + items_bytes(items) + seq![0u8],
    }
}

/// The bytes of some elements.
pub open spec fn items_bytes(items: Seq<Item>) -> Seq<u8>
    decreases items,
{
    if items.len() == 0 {
        seq![]
    } else {
        head(items[0].kind, items[0].key) + node_bytes(items[0].node) + items_bytes(
            items.drop_first(),
        )
    }
}

/// The lengths of all documents inside a value, it included, in the order in which they open.
pub open spec fn lengths(node: Node) -> Seq<i32>
    decreases node,
{
    match node {
        Node::Document(items) => seq![(items_bytes(items).len() + 5) as i32] + items_lengths(items),
        _ => seq![],
    }
}

/// The lengths of all documents inside some elements.
pub open spec fn items_lengths(items: Seq<Item>) -> Seq<i32>
    decreases items,
{
    if items.len() == 0 {
        seq![]
    } else {
        lengths(items[0].node) + items_lengths(items.drop_first())
    }
}

/// What a value stands for.
pub struct Built {
    pub kind: ElementType,
    pub node: Node,
    /// The hint that is left for the values after it.
    pub hint: SerializerHint,
}

/// An element value without elements inside.
pub open spec fn plain(kind: ElementType, bytes: Seq<u8>, hint: SerializerHint) -> Option<Built> {
    Some(Built { kind, node: Node::Plain(bytes), hint })
}

/// What a text stands for.
pub open spec fn built_text(text: Seq<char>, hint: SerializerHint) -> Option<Built> {
    if model::sizable(vstd::utf8::encode_utf8(text).len()) {
        plain(ElementType::String, model::string_bytes(text), hint)
    } else {
        None
    }
}

/// What bytes stand for, as the hint says.
pub open spec fn built_bytes(bytes: Seq<u8>, hint: SerializerHint) -> Option<Built> {
    let absent = SerializerHint::Absent;
    match hint {
        SerializerHint::RawDocument => Some(
            Built { kind: ElementType::EmbeddedDocument, node: Node::Ready(bytes), hint: absent },
        ),
        SerializerHint::RawArray => Some(
            Built { kind: ElementType::Array, node: Node::Ready(bytes), hint: absent },
        ),
        SerializerHint::Uuid => if bytes.len() > MAX_BSON_SIZE {
            None
        } else {
            plain(
                ElementType::Binary,
                model::binary_bytes(bytes, BinarySubtype::Uuid),
                absent,
            )
        },
        SerializerHint::Absent => if bytes.len() > MAX_BSON_SIZE {
            None
        } else {
            plain(
                ElementType::Binary,
                model::binary_bytes(bytes, BinarySubtype::Generic),
                absent,
            )
        },
    }
}

/// What the fields of a struct with a reserved name contribute, from the `i`th on.
pub open spec fn contribution(fields: Seq<Field>, i: nat) -> Option<Seq<u8>>
    decreases fields.len() - i,
{
    if i >= fields.len() {
        Some(seq![])
    } else {
        match (fields[i as int].extended, contribution(fields, i + 1)) {
            (Ok(bytes), Some(rest)) => Some(bytes@ + rest),
            _ => None,
        }
    }
}

/// What a value without values inside stands for.
pub open spec fn built_scalar(v: Value, hint: SerializerHint) -> Option<Built> {
    match v {
        Value::Bool(x) => plain(
            ElementType::Boolean,
            if x {
                seq![1u8]
            } else {
                seq![0u8]
            },
            hint,
        ),
        Value::I8(x) => plain(ElementType::Int32, little_endian::i32_bytes(x as i32), hint),
        Value::I16(x) => plain(ElementType::Int32, little_endian::i32_bytes(x as i32), hint),
        Value::I32(x) => plain(ElementType::Int32, little_endian::i32_bytes(x), hint),
        Value::I64(x) => plain(ElementType::Int64, little_endian::i64_bytes(x), hint),
        Value::U8(x) => plain(ElementType::Int32, little_endian::i32_bytes(x as i32), hint),
        Value::U16(x) => plain(ElementType::Int32, little_endian::i32_bytes(x as i32), hint),
        Value::U32(x) => plain(ElementType::Int64, little_endian::i64_bytes(x as i64), hint),
        Value::U64(x) => if x <= i64::MAX {
            plain(ElementType::Int64, little_endian::i64_bytes(x as i64), hint)
        } else {
            None
        },
        Value::F64(bits) => plain(ElementType::Double, little_endian::u64_bytes(bits), hint),
        Value::Char(c) => built_text(seq![c], hint),
        Value::Str(text) => built_text(text@, hint),
        Value::UnitVariant { variant, .. } => built_text(variant@, hint),
        Value::Bytes(bytes) => built_bytes(bytes@, hint),
        Value::Struct { name, fields } => match (
            element::reserved_type(name@),
            contribution(fields@, 0),
        ) {
            (Some(value_type), Some(bytes)) => Some(
                Built { kind: value_type.spec_element_type(), node: Node::Ready(bytes), hint },
            ),
            _ => None,
        },
        _ => plain(ElementType::Null, seq![], hint),
    }
}

/// The type of the element that a container is.
pub open spec fn container_kind(v: Value) -> ElementType {
    match v {
        Value::Sequence(_) => ElementType::Array,
        Value::Tuple(_) => ElementType::Array,
        Value::TupleStruct { .. } => ElementType::Array,
        _ => ElementType::EmbeddedDocument,
    }
}

/// The document that a container with the given elements inside is. A variant with several
/// fields is a document with one element, named after it, which holds these elements.
pub open spec fn container_node(v: Value, items: Seq<Item>) -> Option<Node> {
    let inner = Node::Document(items);
    match v {
        Value::TupleVariant { variant, .. } => if text::has_nul(variant@) {
            None
        } else {
            Some(
                Node::Document(
                    seq![Item { kind: ElementType::Array, key: variant@, node: inner }],
                ),
            )
        },
        Value::StructVariant { variant, .. } => if text::has_nul(variant@) {
            None
        } else {
            Some(
                Node::Document(
                    seq![Item { kind: ElementType::EmbeddedDocument, key: variant@, node: inner }],
                ),
            )
        },
        _ => Some(inner),
    }
}

/// What a value stands for when the hint is `hint`, in human-readable form or not: `None` where
/// there is no such thing, that is where a key or a variant name has a NUL character, an unsigned
/// integer or a binary value is too large, the size of a text cannot be written, or a ready-made
/// part is missing.
pub open spec fn built(v: Value, hint: SerializerHint, readable: bool) -> Option<Built>
    decreases v, model::count(v) + 1,
{
    match v {
        Value::Present(inside) => built(*inside, hint, readable),
        Value::TwoForms { human_readable, compact } => if readable {
            built(*human_readable, hint, readable)
        } else {
            built(*compact, hint, readable)
        },
        Value::NewtypeStruct { name, value } => built(
            *value,
            hint_inside(name@, hint),
            value::readable_inside(name@, readable),
        ),
        _ => if model::is_container(v) {
            match built_children(v, 0, hint, readable) {
                Some((items, after)) => match container_node(v, items) {
                    Some(node) => Some(Built { kind: container_kind(v), node, hint: after }),
                    None => None,
                },
                None => None,
            }
        } else {
            built_scalar(v, hint)
        },
    }
}

/// The hint for the inside of a newtype struct.
pub open spec fn hint_inside(name: Seq<char>, hint: SerializerHint) -> SerializerHint {
    match value::newtype(name) {
        Newtype::Uuid => SerializerHint::Uuid,
        Newtype::RawDocument => SerializerHint::RawDocument,
        Newtype::RawArray => SerializerHint::RawArray,
        _ => hint,
    }
}

/// The elements that the values inside a container stand for, from the `i`th on, and the hint
/// that is left after them.
pub open spec fn built_children(
    v: Value,
    i: nat,
    hint: SerializerHint,
    readable: bool,
) -> Option<(Seq<Item>, SerializerHint)>
    decreases v, model::count(v) - i,
{
    if i >= model::count(v) {
        Some((seq![], hint))
    } else {
        proof {
            model::lemma_child_decreases(v, i as int);
        }
        let key = model::child_key(v, i as int);
        match built(model::child(v, i as int), hint, readable) {
            Some(b) => if text::has_nul(key) {
                None
            } else {
                match built_children(v, i + 1, b.hint, readable) {
                    Some((items, after)) => Some(
                        (seq![Item { kind: b.kind, key, node: b.node }] + items, after),
                    ),
                    None => None,
                }
            },
            None => None,
        }
    }
}

/// Whether an element of the given type can be written next: there is a key for it, which can be
/// written, or it is the top-level document.
pub open spec fn placeable(s: State, kind: ElementType) -> bool {
    match s.next_key {
        Some(key) => !text::has_nul(key),
        None => !s.started && kind == ElementType::EmbeddedDocument,
    }
}

/// What goes in front of the value of the next element.
pub open spec fn next_head(s: State, kind: ElementType) -> Seq<u8> {
    match s.next_key {
        Some(key) => head(kind, key),
        None => seq![],
    }
}

/// The state after an element was written in state `s`.
pub open spec fn written(s: State, b: Built, rest: Seq<i32>) -> State {
    State {
        out: s.out + next_head(s, b.kind) + node_bytes(b.node),
        lens: rest,
        started: s.started || b.node is Document,
        next_key: None,
        hint: b.hint,
        human_readable: s.human_readable,
    }
}

proof fn lemma_key_written(s: State, kind: ElementType)
    requires
        placeable(s, kind),
    ensures
        model::key(s, kind) == Outcome::Done(
            (State { out: s.out + next_head(s, kind), next_key: None, ..s }),
        ),
{
    match s.next_key {
        Some(key) => {
            assert(s.out + seq![kind.spec_code()] + model::cstring_bytes(key) =~= s.out + head(
                kind,
                key,
            ));
        },
        None => {
            assert(s.out + seq![] =~= s.out);
        },
    }
}

proof fn lemma_extended_written(s: State, fields: Seq<Field>, i: nat)
    ensures
        match contribution(fields, i) {
            Some(bytes) => model::put_extended_fields(s, fields, i) == Outcome::Done(
                s.emit(bytes),
            ),
            None => model::put_extended_fields(s, fields, i) is Failed,
        },
    decreases fields.len() - i,
{
    if i >= fields.len() {
        assert(s.out + seq![] =~= s.out);
    } else {
        if let Ok(bytes) = fields[i as int].extended {
            let t = s.emit(bytes@);
            lemma_extended_written(t, fields, i + 1);
            if let Some(rest) = contribution(fields, i + 1) {
                assert(s.out + bytes@ + rest =~= s.out + (bytes@ + rest));
            }
        }
    }
}

#[verifier::rlimit(30)]
proof fn lemma_scalar_written(s: State, v: Value)
    requires
        v !is Present,
        v !is TwoForms,
        v !is NewtypeStruct,
        !model::is_container(v),
    ensures
        built_scalar(v, s.hint) matches Some(b) ==> (placeable(s, b.kind) ==> model::put_scalar(
            s,
            v,
        ) == Outcome::Done(written(s, b, s.lens))),
        model::put_scalar(s, v) matches Outcome::Done(t) ==> (built_scalar(v, s.hint) matches Some(
            b,
        ) && placeable(s, b.kind) && t.hint == b.hint),
{
    if let Some(b) = built_scalar(v, s.hint) {
        if placeable(s, b.kind) {
            lemma_key_written(s, b.kind);
            lemma_key_written(State { hint: SerializerHint::Absent, ..s }, b.kind);
        }
    }
    if let Value::Struct { name, fields } = v {
        if let Outcome::Done(t) = model::open_struct(s, name@) {
            lemma_extended_written(t, fields@, 0);
        }
    }
}

/// The state after some elements were written in state `s`, inside an open document.
pub open spec fn items_written(
    s: State,
    items: Seq<Item>,
    hint: SerializerHint,
    rest: Seq<i32>,
) -> State {
    State { out: s.out + items_bytes(items), lens: rest, hint, ..s }
}

/// The state after a container was opened, with the bytes that go in front of its elements.
pub open spec fn opened(s: State, v: Value, items: Seq<Item>) -> State {
    let size = little_endian::i32_bytes((items_bytes(items).len() + 5) as i32);
    let n = match container_node(v, items) {
        Some(Node::Document(outer)) => little_endian::i32_bytes(
            (items_bytes(outer).len() + 5) as i32,
        ),
        _ => seq![],
    };
    let front = match v {
        Value::TupleVariant { variant, .. } => n + head(ElementType::Array, variant@) + size,
        Value::StructVariant { variant, .. } => n + head(ElementType::EmbeddedDocument, variant@)
            + size,
        _ => size,
    };
    State {
        out: s.out + next_head(s, container_kind(v)) + front,
        lens: s.lens.skip(laws::own_documents(v) as int),
        started: true,
        next_key: None,
        ..s
    }
}

pub(crate) proof fn lemma_one_item(item: Item)
    ensures
        items_bytes(seq![item]) == head(item.kind, item.key) + node_bytes(item.node),
        items_lengths(seq![item]) == lengths(item.node),
{
    let items = seq![item];
    assert(items.drop_first() =~= seq![]);
    assert(items_bytes(items.drop_first()) =~= seq![]);
    assert(items_bytes(items) =~= head(item.kind, item.key) + node_bytes(item.node));
    assert(items_lengths(items.drop_first()) =~= seq![]);
    assert(items_lengths(items) =~= lengths(item.node));
}

/// Opening a container writes what goes in front of its elements, given their lengths.
proof fn lemma_opening_written(s: State, v: Value, items: Seq<Item>, rest: Seq<i32>)
    requires
        model::is_container(v),
        placeable(s, container_kind(v)),
        container_node(v, items) matches Some(node) && s.lens == lengths(node) + rest,
    ensures
        model::opening(s, v) == Outcome::Done(opened(s, v, items)),
        opened(s, v, items).lens == items_lengths(items) + rest,
{
    let kind = container_kind(v);
    let node = container_node(v, items)->Some_0;
    let inner = Node::Document(items);
    let size = (items_bytes(items).len() + 5) as i32;
    lemma_key_written(s, kind);
    let t = State { out: s.out + next_head(s, kind), next_key: None, ..s };
    assert(model::key(s, kind) == Outcome::Done(t));
    if v is TupleVariant || v is StructVariant {
        let inner_kind = if v is TupleVariant {
            ElementType::Array
        } else {
            ElementType::EmbeddedDocument
        };
        let variant = match v {
            Value::TupleVariant { variant, .. } => variant@,
            Value::StructVariant { variant, .. } => variant@,
            _ => seq![],
        };
        let item = Item { kind: inner_kind, key: variant, node: inner };
        lemma_one_item(item);
        assert(node == Node::Document(seq![item]));
        let outer_size = (items_bytes(seq![item]).len() + 5) as i32;
        assert(s.lens =~= seq![outer_size] + (seq![size] + items_lengths(items)) + rest);
        assert(s.lens[0] == outer_size);
        assert(s.lens.drop_first()[0] == size);
        assert(s.lens.drop_first().drop_first() =~= items_lengths(items) + rest);
        assert(s.lens.skip(2) =~= items_lengths(items) + rest);
        let a = t.out + little_endian::i32_bytes(outer_size);
        let b = a + seq![inner_kind.spec_code()];
        let c = b + model::cstring_bytes(variant);
        let d = c + little_endian::i32_bytes(size);
        assert(d =~= t.out + (little_endian::i32_bytes(outer_size) + head(inner_kind, variant)
            + little_endian::i32_bytes(size)));
        let u = State { out: d, lens: s.lens.drop_first().drop_first(), started: true, ..t };
        assert(model::start_variant(t, variant, inner_kind) == Outcome::Done(u));
        assert(model::opening(s, v) == Outcome::Done(u));
    } else {
        assert(node == inner);
        assert(s.lens =~= seq![size] + (items_lengths(items) + rest));
        assert(s.lens[0] == size);
        assert(s.lens.drop_first() =~= items_lengths(items) + rest);
        assert(s.lens.skip(1) =~= items_lengths(items) + rest);
        assert(model::opening(s, v) == model::next_len(t));
    }
}

/// What a container is written as, put together.
proof fn lemma_closing_written(s: State, v: Value, items: Seq<Item>)
    requires
        container_node(v, items) is Some,
    ensures
        opened(s, v, items).out + items_bytes(items) + model::closing(v) == s.out + next_head(
            s,
            container_kind(v),
        ) + node_bytes(container_node(v, items)->Some_0),
{
    let before = s.out + next_head(s, container_kind(v));
    let node = container_node(v, items)->Some_0;
    let whole = opened(s, v, items).out + items_bytes(items) + model::closing(v);
    let inner = Node::Document(items);
    if v is TupleVariant || v is StructVariant {
        let item = (node->Document_0)[0];
        lemma_one_item(item);
        assert(node == Node::Document(seq![item]));
        assert(node_bytes(node) =~= little_endian::i32_bytes(
            (items_bytes(seq![item]).len() + 5) as i32,
        ) + (head(item.kind, item.key) + (little_endian::i32_bytes(
            (items_bytes(items).len() + 5) as i32,
        ) + items_bytes(items) + seq![0u8])) + seq![0u8]);
        assert(whole =~= before + node_bytes(node));
    } else {
        assert(node == inner);
        assert(whole =~= before + node_bytes(node));
    }
}

/// A value that stands for something, put where it can be placed and with the lengths of its
/// documents recorded, is written as the bytes of what it stands for. It uses up these lengths
/// and the key, and leaves the hint that follows.
pub proof fn law_written(s: State, v: Value, rest: Seq<i32>)
    requires
        built(v, s.hint, s.human_readable) matches Some(b) && placeable(s, b.kind) && s.lens
            == lengths(b.node) + rest,
    ensures
        model::run(s, v) == Outcome::Done(
            written(s, built(v, s.hint, s.human_readable)->Some_0, rest),
        ),
    decreases v, model::count(v) + 2,
{
    match v {
        Value::Present(inside) => law_written(s, *inside, rest),
        Value::TwoForms { human_readable, compact } => if s.human_readable {
            law_written(s, *human_readable, rest);
        } else {
            law_written(s, *compact, rest);
        },
        Value::NewtypeStruct { name, value } => {
            let u = model::enter_newtype(s, name@);
            assert(u.hint == hint_inside(name@, s.hint));
            law_written(u, *value, rest);
        },
        _ => if model::is_container(v) {
            lemma_container_written(s, v, rest);
        } else {
            let b = built_scalar(v, s.hint)->Some_0;
            lemma_scalar_written(s, v);
            assert(lengths(b.node) =~= seq![]);
            assert(rest =~= s.lens);
        },
    }
}

proof fn lemma_container_written(s: State, v: Value, rest: Seq<i32>)
    requires
        model::is_container(v),
        built_children(v, 0, s.hint, s.human_readable) is Some,
        placeable(s, container_kind(v)),
        container_node(
            v,
            built_children(v, 0, s.hint, s.human_readable)->Some_0.0,
        ) matches Some(node) && s.lens == lengths(node) + rest,
    ensures
        model::opening(s, v) matches Outcome::Done(t) && model::run_children(t, v, 0).emit(
            model::closing(v),
        ) == Outcome::Done(
            written(
                s,
                (Built {
                    kind: container_kind(v),
                    node: container_node(
                        v,
                        built_children(v, 0, s.hint, s.human_readable)->Some_0.0,
                    )->Some_0,
                    hint: built_children(v, 0, s.hint, s.human_readable)->Some_0.1,
                }),
                rest,
            ),
        ),
    decreases v, model::count(v) + 1,
{
    let (items, after) = built_children(v, 0, s.hint, s.human_readable)->Some_0;
    lemma_opening_written(s, v, items, rest);
    let t = opened(s, v, items);
    lemma_children_written(t, v, 0, rest);
    lemma_closing_written(s, v, items);
}

proof fn lemma_children_written(s: State, v: Value, i: nat, rest: Seq<i32>)
    requires
        s.started,
        s.next_key is None,
        built_children(v, i, s.hint, s.human_readable) matches Some(p) && s.lens
            == items_lengths(p.0) + rest,
    ensures
        model::run_children(s, v, i) == Outcome::Done(
            items_written(
                s,
                built_children(v, i, s.hint, s.human_readable)->Some_0.0,
                built_children(v, i, s.hint, s.human_readable)->Some_0.1,
                rest,
            ),
        ),
    decreases v, model::count(v) - i,
{
    let (items, after) = built_children(v, i, s.hint, s.human_readable)->Some_0;
    if i >= model::count(v) {
        assert(items_bytes(items) =~= seq![]);
        assert(items_lengths(items) =~= seq![]);
        assert(s.out + items_bytes(items) =~= s.out);
        assert(s.lens =~= rest);
    } else {
        let key = model::child_key(v, i as int);
        let c = model::child(v, i as int);
        let b = built(c, s.hint, s.human_readable)->Some_0;
        let (others, _) = built_children(v, i + 1, b.hint, s.human_readable)->Some_0;
        let item = Item { kind: b.kind, key, node: b.node };
        assert(items[0] == item);
        assert(items.drop_first() =~= others);
        let later = items_lengths(others) + rest;
        assert(s.lens =~= lengths(b.node) + later);
        model::lemma_child_decreases(v, i as int);
        let u = s.with_key(key);
        law_written(u, c, later);
        let t = written(u, b, later);
        lemma_children_written(t, v, i + 1, rest);
        assert(t.out + items_bytes(others) =~= s.out + items_bytes(items));
    }
}

proof fn lemma_opening_done(s: State, v: Value, items: Seq<Item>)
    requires
        model::is_container(v),
    ensures
        model::opening(s, v) is Done <==> placeable(s, container_kind(v)) && container_node(
            v,
            items,
        ) is Some && laws::own_documents(v) <= s.lens.len(),
        model::opening(s, v) matches Outcome::Done(t) ==> t.hint == s.hint && t.next_key is None
            && t.lens == s.lens.skip(laws::own_documents(v) as int),
{
    laws::lemma_opening_used(s, v);
}

/// A value is serialized in full exactly when it stands for something that can be placed here and
/// there is a recorded length for each of its documents. The hint that it leaves is the one that
/// follows from it.
pub proof fn law_success(s: State, v: Value)
    ensures
        model::run(s, v) is Done <==> (built(v, s.hint, s.human_readable) matches Some(b)
            && placeable(s, b.kind) && laws::documents(v, s.human_readable) <= s.lens.len()),
        model::run(s, v) matches Outcome::Done(t) ==> t.hint == built(
            v,
            s.hint,
            s.human_readable,
        )->Some_0.hint,
    decreases v, model::count(v) + 2,
{
    match v {
        Value::Present(inside) => law_success(s, *inside),
        Value::TwoForms { human_readable, compact } => if s.human_readable {
            law_success(s, *human_readable);
        } else {
            law_success(s, *compact);
        },
        Value::NewtypeStruct { name, value } => {
            let u = model::enter_newtype(s, name@);
            assert(u.hint == hint_inside(name@, s.hint));
            law_success(u, *value);
        },
        _ => if model::is_container(v) {
            lemma_container_done(s, v);
        } else {
            lemma_scalar_written(s, v);
        },
    }
}

proof fn lemma_container_done(s: State, v: Value)
    requires
        model::is_container(v),
    ensures
        ({
            let o = match model::opening(s, v) {
                Outcome::Done(t) => model::run_children(t, v, 0).emit(model::closing(v)),
                o => o,
            };
            let children = built_children(v, 0, s.hint, s.human_readable);
            &&& o is Done <==> (children matches Some(p) && container_node(v, p.0) is Some
                && placeable(s, container_kind(v)) && laws::documents(v, s.human_readable)
                <= s.lens.len())
            &&& o matches Outcome::Done(t) ==> t.hint == children->Some_0.1
        }),
    decreases v, model::count(v) + 1,
{
    let items = match built_children(v, 0, s.hint, s.human_readable) {
        Some((items, _)) => items,
        None => seq![],
    };
    lemma_opening_done(s, v, items);
    if let Outcome::Done(t) = model::opening(s, v) {
        lemma_children_done(t, v, 0);
    }
}

proof fn lemma_children_done(s: State, v: Value, i: nat)
    ensures
        model::run_children(s, v, i) is Done <==> built_children(
            v,
            i,
            s.hint,
            s.human_readable,
        ) is Some && laws::documents_inside(v, i, s.human_readable) <= s.lens.len(),
        model::run_children(s, v, i) matches Outcome::Done(t) ==> t.hint == built_children(
            v,
            i,
            s.hint,
            s.human_readable,
        )->Some_0.1,
    decreases v, model::count(v) - i,
{
    if i < model::count(v) {
        let u = s.with_key(model::child_key(v, i as int));
        let c = model::child(v, i as int);
        model::lemma_child_decreases(v, i as int);
        law_success(u, c);
        laws::lemma_used(u, c);
        if let Outcome::Done(t) = model::run(u, c) {
            lemma_children_done(t, v, i + 1);
        }
    }
}

/// With a recorded length for each document, and texts whose sizes can be written, serialization
/// fails exactly when the value stands for nothing or cannot be placed here.
pub proof fn law_failure(s: State, v: Value)
    requires
        laws::texts_sizable(v, s.human_readable),
        laws::documents(v, s.human_readable) <= s.lens.len(),
    ensures
        model::run(s, v) is Failed <==> !(built(v, s.hint, s.human_readable) matches Some(b)
            && placeable(s, b.kind)),
{
    law_success(s, v);
    laws::law_lengths_suffice(s, v);
}

/// The type of the element that a value would be written as is the type of what it stands for.
pub proof fn law_kind(v: Value, hint: SerializerHint, readable: bool)
    ensures
        built(v, hint, readable) matches Some(b) ==> b.kind == laws::kind(v, hint, readable),
    decreases v,
{
    match v {
        Value::Present(inside) => law_kind(*inside, hint, readable),
        Value::TwoForms { human_readable, compact } => {
            law_kind(*human_readable, hint, readable);
            law_kind(*compact, hint, readable);
        },
        Value::NewtypeStruct { name, value } => law_kind(
            *value,
            hint_inside(name@, hint),
            value::readable_inside(name@, readable),
        ),
        _ => {},
    }
}

/// The lengths of what a value stands for are one for each document it is written as.
pub proof fn law_one_length_for_each_document(v: Value, hint: SerializerHint, readable: bool)
    requires
        built(v, hint, readable) is Some,
    ensures
        lengths(built(v, hint, readable)->Some_0.node).len() == laws::documents(v, readable),
{
    let b = built(v, hint, readable)->Some_0;
    let s = State {
        out: seq![],
        lens: lengths(b.node),
        started: true,
        next_key: Some(seq![]),
        hint,
        human_readable: readable,
    };
    assert(s.lens =~= lengths(b.node) + seq![]);
    law_written(s, v, seq![]);
    laws::law_lengths_used(s, v);
    assert(s.lens.skip(laws::documents(v, readable) as int).len() == 0);
}

} // verus!
