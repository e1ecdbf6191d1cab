//! What serialization does, as a function from the serializer's state to its next state.

use crate::element;
use crate::element::BinarySubtype;
use crate::element::ElementType;
use crate::element::MAX_BSON_SIZE;
use crate::error;
use crate::error::Error;
use crate::error::Failure;
use crate::little_endian;
use crate::serializer::SerializerHint;
use crate::text;
use crate::value;
use crate::value::Field;
use crate::value::Newtype;
use crate::value::Value;
use vstd::prelude::*;

verus! {

/// The state of a serializer.
pub struct State {
    /// The bytes written so far.
    pub out: Seq<u8>,
    /// The recorded lengths of the documents still to be opened, in order of opening.
    pub lens: Seq<i32>,
    /// Whether a document has been opened.
    pub started: bool,
    /// The text of the key that the next value goes under.
    pub next_key: Option<Seq<char>>,
    pub hint: SerializerHint,
    pub human_readable: bool,
}

/// How a step of serialization ends.
pub enum Outcome {
    /// In success.
    Done(State),
    /// In an error, with this much of the step done.
    Failed(State, Failure),
    /// Not at all: a recorded length is missing, or the size of a text is out of range.
    Undefined,
}

impl State {
    /// The state after writing `bytes`.
    pub open spec fn emit(self, bytes: Seq<u8>) -> State {
        State { out: self.out + bytes, ..self }
    }

    /// The state in which the next value goes under the key `key`.
    pub open spec fn with_key(self, key: Seq<char>) -> State {
        State { next_key: Some(key), ..self }
    }
}

/// How a step ended that returned `r` and left the state `s`.
pub open spec fn outcome(r: Result<(), Error>, s: State) -> Outcome {
    match r {
        Ok(_) => Outcome::Done(s),
        Err(e) => Outcome::Failed(s, e@),
    }
}

impl Outcome {
    /// The outcome of writing `bytes` after this one.
    pub open spec fn emit(self, bytes: Seq<u8>) -> Outcome {
        match self {
            Outcome::Done(s) => Outcome::Done(s.emit(bytes)),
            o => o,
        }
    }
}

/// A text as a C string: its UTF-8 bytes and a zero byte.
pub open spec fn cstring_bytes(text: Seq<char>) -> Seq<u8> {
    vstd::utf8::encode_utf8(text).push(0u8)
}

/// Writes a C string.
pub open spec fn cstring(s: State, text: Seq<char>) -> Outcome {
    if text::has_nul(text) {
        Outcome::Failed(s, Failure::InvalidCString(text))
    } else {
        Outcome::Done(s.emit(cstring_bytes(text)))
    }
}

/// Whether a text of `n` bytes has a size that can be written: one more than `n`, cut down to
/// 32 bits, must not overflow.
pub open spec fn sizable(n: nat) -> bool {
    n as i32 != i32::MAX
}

/// A text as a string: the size of its bytes with the final zero byte, then these.
pub open spec fn string_bytes(text: Seq<char>) -> Seq<u8> {
    let n = vstd::utf8::encode_utf8(text).len();
    little_endian::i32_bytes((n as i32 + 1) as i32) + cstring_bytes(text)
}

/// The size of a text of one character can be written.
pub proof fn lemma_char_sizable(c: char)
    ensures
        sizable(vstd::utf8::encode_utf8(seq![c]).len()),
{
    reveal_with_fuel(vstd::utf8::encode_utf8, 2);
    assert(seq![c].drop_first() =~= seq![]);
}

/// Writes a string.
pub open spec fn string(s: State, text: Seq<char>) -> Outcome {
    if sizable(vstd::utf8::encode_utf8(text).len()) {
        Outcome::Done(s.emit(string_bytes(text)))
    } else {
        Outcome::Undefined
    }
}

/// The size in front of a binary value: the old subtype counts its inner size too.
pub open spec fn binary_size(bytes: Seq<u8>, subtype: BinarySubtype) -> nat {
    if subtype is BinaryOld {
        bytes.len() + 4
    } else {
        bytes.len()
    }
}

/// A binary value: its size, its subtype and its bytes. The old subtype repeats the size of the
/// bytes alone in front of them.
pub open spec fn binary_bytes(bytes: Seq<u8>, subtype: BinarySubtype) -> Seq<u8> {
    let head = little_endian::i32_bytes(binary_size(bytes, subtype) as i32)
        + seq![subtype.spec_code()];
    if subtype is BinaryOld {
        head + little_endian::i32_bytes(bytes.len() as i32) + bytes
    } else {
        head + bytes
    }
}

/// Writes a binary value.
pub open spec fn binary(s: State, bytes: Seq<u8>, subtype: BinarySubtype) -> Outcome {
    if binary_size(bytes, subtype) > MAX_BSON_SIZE {
        Outcome::Failed(s, error::binary_too_long(bytes.len()))
    } else {
        Outcome::Done(s.emit(binary_bytes(bytes, subtype)))
    }
}

/// Writes the next recorded length.
pub open spec fn next_len(s: State) -> Outcome {
    if s.lens.len() == 0 {
        Outcome::Undefined
    } else {
        Outcome::Done(
            State {
                out: s.out + little_endian::i32_bytes(s.lens[0]),
                lens: s.lens.drop_first(),
                started: true,
                ..s
            },
        )
    }
}

/// Writes the type and the key of an element. Only a top-level document goes without.
pub open spec fn key(s: State, t: ElementType) -> Outcome {
    match s.next_key {
        Some(text) => cstring(
            State { next_key: None, ..s }.emit(seq![t.spec_code()]),
            text,
        ),
        None => if !s.started && t == ElementType::EmbeddedDocument {
            Outcome::Done(s)
        } else {
            Outcome::Failed(s, error::non_document(t))
        },
    }
}

/// Writes an element whose value is `body`.
pub open spec fn element(s: State, t: ElementType, body: Seq<u8>) -> Outcome {
    key(s, t).emit(body)
}

/// Writes a truth value.
pub open spec fn put_bool(s: State, v: bool) -> Outcome {
    element(
        s,
        ElementType::Boolean,
        if v {
            seq![1u8]
        } else {
            seq![0u8]
        },
    )
}

/// Writes a 32-bit integer.
pub open spec fn put_i32(s: State, v: i32) -> Outcome {
    element(s, ElementType::Int32, little_endian::i32_bytes(v))
}

/// Writes a 64-bit integer.
pub open spec fn put_i64(s: State, v: i64) -> Outcome {
    element(s, ElementType::Int64, little_endian::i64_bytes(v))
}

/// Writes a double, given by its bit pattern.
pub open spec fn put_f64(s: State, bits: u64) -> Outcome {
    element(s, ElementType::Double, little_endian::u64_bytes(bits))
}

/// Writes an unsigned 64-bit integer, which must fit in a signed one.
pub open spec fn put_u64(s: State, v: u64) -> Outcome {
    if v <= i64::MAX {
        put_i64(s, v as i64)
    } else {
        Outcome::Failed(s, Failure::UnsignedIntegerExceededRange(v))
    }
}

/// Writes a text.
pub open spec fn put_text(s: State, text: Seq<char>) -> Outcome {
    match key(s, ElementType::String) {
        Outcome::Done(s) => string(s, text),
        o => o,
    }
}

/// Writes bytes, as the hint says, and forgets the hint.
pub open spec fn put_bytes(s: State, bytes: Seq<u8>) -> Outcome {
    let t = State { hint: SerializerHint::Absent, ..s };
    match s.hint {
        SerializerHint::RawDocument => element(t, ElementType::EmbeddedDocument, bytes),
        SerializerHint::RawArray => element(t, ElementType::Array, bytes),
        SerializerHint::Uuid => match key(t, ElementType::Binary) {
            Outcome::Done(t) => binary(t, bytes, BinarySubtype::Uuid),
            o => o,
        },
        SerializerHint::Absent => match key(t, ElementType::Binary) {
            Outcome::Done(t) => binary(t, bytes, BinarySubtype::Generic),
            o => o,
        },
    }
}

/// Writes nothing under a key.
pub open spec fn put_null(s: State) -> Outcome {
    element(s, ElementType::Null, seq![])
}

/// Opens a document or an array.
pub open spec fn open_document(s: State, t: ElementType) -> Outcome {
    match key(s, t) {
        Outcome::Done(s) => next_len(s),
        o => o,
    }
}

/// Writes the head of the two documents of a variant: the outer one holds one element, named
/// after the variant, which is the inner one.
pub open spec fn start_variant(s: State, variant: Seq<char>, inner: ElementType) -> Outcome {
    match next_len(s).emit(seq![inner.spec_code()]) {
        Outcome::Done(s) => match cstring(s, variant) {
            Outcome::Done(s) => next_len(s),
            o => o,
        },
        o => o,
    }
}

/// Opens the two documents of a variant.
pub open spec fn open_variant(s: State, variant: Seq<char>, inner: ElementType) -> Outcome {
    match key(s, ElementType::EmbeddedDocument) {
        Outcome::Done(s) => start_variant(s, variant, inner),
        o => o,
    }
}

/// Opens a struct: a BSON value where its name is reserved for one, else a document.
pub open spec fn open_struct(s: State, name: Seq<char>) -> Outcome {
    match element::reserved_type(name) {
        Some(value_type) => key(s, value_type.spec_element_type()),
        None => open_document(s, ElementType::EmbeddedDocument),
    }
}

/// The state in which the inside of a newtype struct is serialized.
pub open spec fn enter_newtype(s: State, name: Seq<char>) -> State {
    match value::newtype(name) {
        Newtype::Uuid => State { hint: SerializerHint::Uuid, ..s },
        Newtype::RawDocument => State { hint: SerializerHint::RawDocument, ..s },
        Newtype::RawArray => State { hint: SerializerHint::RawArray, ..s },
        Newtype::HumanReadable => State { human_readable: true, ..s },
        Newtype::Plain => s,
    }
}

/// The outcome for a newtype struct met in state `s` whose inside had the outcome `o`.
pub open spec fn leave_newtype(s: State, name: Seq<char>, o: Outcome) -> Outcome {
    if value::newtype(name) is HumanReadable {
        match o {
            Outcome::Done(t) => Outcome::Done(State { human_readable: s.human_readable, ..t }),
            Outcome::Failed(t, e) => Outcome::Failed(
                State { human_readable: s.human_readable, ..t },
                e,
            ),
            Outcome::Undefined => o,
        }
    } else {
        o
    }
}

/// Writes the bytes that a field contributes to a BSON value with a reserved struct name.
pub open spec fn put_extended(s: State, extended: Result<Vec<u8>, String>) -> Outcome {
    match extended {
        Ok(bytes) => Outcome::Done(s.emit(bytes@)),
        Err(message) => Outcome::Failed(s, Failure::SerializationError(message@)),
    }
}

/// Writes what the fields of a struct with a reserved name contribute, from the `i`th on.
pub open spec fn put_extended_fields(s: State, fields: Seq<Field>, i: nat) -> Outcome
    decreases fields.len() - i,
{
    if i >= fields.len() {
        Outcome::Done(s)
    } else {
        match put_extended(s, fields[i as int].extended) {
            Outcome::Done(t) => put_extended_fields(t, fields, i + 1),
            o => o,
        }
    }
}

/// Whether a value is written as a document, or as two, with other values inside.
pub open spec fn is_container(v: Value) -> bool {
    match v {
        Value::NewtypeVariant { .. } => true,
        Value::Sequence(_) => true,
        Value::Tuple(_) => true,
        Value::TupleStruct { .. } => true,
        Value::TupleVariant { .. } => true,
        Value::Mapping(_) => true,
        Value::Struct { name, .. } => element::reserved_type(name@) is None,
        Value::StructVariant { .. } => true,
        _ => false,
    }
}

/// How many values a container has inside.
pub open spec fn count(v: Value) -> nat {
    match v {
        Value::NewtypeVariant { .. } => 1,
        Value::Sequence(elements) => elements@.len(),
        Value::Tuple(elements) => elements@.len(),
        Value::TupleStruct { elements, .. } => elements@.len(),
        Value::TupleVariant { elements, .. } => elements@.len(),
        Value::Mapping(entries) => entries@.len(),
        Value::Struct { fields, .. } => fields@.len(),
        Value::StructVariant { fields, .. } => fields@.len(),
        _ => 0,
    }
}

/// The `i`th value inside a container.
pub open spec fn child(v: Value, i: int) -> Value {
    match v {
        Value::NewtypeVariant { value, .. } => *value,
        Value::Sequence(elements) => elements@[i],
        Value::Tuple(elements) => elements@[i],
        Value::TupleStruct { elements, .. } => elements@[i],
        Value::TupleVariant { elements, .. } => elements@[i],
        Value::Mapping(entries) => entries@[i].1,
        Value::Struct { fields, .. } => fields@[i].value,
        Value::StructVariant { fields, .. } => fields@[i].value,
        _ => v,
    }
}

/// The key of the `i`th value inside a container: its name where it has one, the name of the
/// variant where it is the only one, else its index in decimal.
pub open spec fn child_key(v: Value, i: int) -> Seq<char> {
    match v {
        Value::NewtypeVariant { variant, .. } => variant@,
        Value::Mapping(entries) => entries@[i].0@,
        Value::Struct { fields, .. } => fields@[i].key@,
        Value::StructVariant { fields, .. } => fields@[i].key@,
        _ => text::decimal(i as nat),
    }
}

/// Opens a container: writes everything in front of the values inside.
pub open spec fn opening(s: State, v: Value) -> Outcome {
    match v {
        Value::Sequence(_) => open_document(s, ElementType::Array),
        Value::Tuple(_) => open_document(s, ElementType::Array),
        Value::TupleStruct { .. } => open_document(s, ElementType::Array),
        Value::TupleVariant { variant, .. } => open_variant(s, variant@, ElementType::Array),
        Value::StructVariant { variant, .. } => open_variant(
            s,
            variant@,
            ElementType::EmbeddedDocument,
        ),
        _ => open_document(s, ElementType::EmbeddedDocument),
    }
}

/// What closes a container: a zero byte for each of its documents.
pub open spec fn closing(v: Value) -> Seq<u8> {
    match v {
        Value::TupleVariant { .. } => seq![0u8, 0u8],
        Value::StructVariant { .. } => seq![0u8, 0u8],
        _ => seq![0u8],
    }
}

/// Serializes a value that has no other value inside.
pub open spec fn put_scalar(s: State, v: Value) -> Outcome {
    match v {
        Value::Bool(x) => put_bool(s, x),
        Value::I8(x) => put_i32(s, x as i32),
        Value::I16(x) => put_i32(s, x as i32),
        Value::I32(x) => put_i32(s, x),
        Value::I64(x) => put_i64(s, x),
        Value::U8(x) => put_i32(s, x as i32),
        Value::U16(x) => put_i32(s, x as i32),
        Value::U32(x) => put_i64(s, x as i64),
        Value::U64(x) => put_u64(s, x),
        Value::F64(bits) => put_f64(s, bits),
        Value::Char(c) => put_text(s, seq![c]),
        Value::Str(text) => put_text(s, text@),
        Value::UnitVariant { variant, .. } => put_text(s, variant@),
        Value::Bytes(bytes) => put_bytes(s, bytes@),
        Value::Struct { name, fields } => match open_struct(s, name@) {
            Outcome::Done(t) => put_extended_fields(t, fields@, 0),
            o => o,
        },
        _ => put_null(s),
    }
}

/// Serializes a value.
pub open spec fn run(s: State, v: Value) -> Outcome
    decreases v, count(v) + 1,
{
    match v {
        Value::Present(inside) => run(s, *inside),
        Value::TwoForms { human_readable, compact } => if s.human_readable {
            run(s, *human_readable)
        } else {
            run(s, *compact)
        },
        Value::NewtypeStruct { name, value } => leave_newtype(
            s,
            name@,
            run(enter_newtype(s, name@), *value),
        ),
        _ => if is_container(v) {
            match opening(s, v) {
                Outcome::Done(t) => run_children(t, v, 0).emit(closing(v)),
                o => o,
            }
        } else {
            put_scalar(s, v)
        },
    }
}

/// Serializes the values inside a container from the `i`th on, each under its key.
pub open spec fn run_children(s: State, v: Value, i: nat) -> Outcome
    decreases v, count(v) - i,
{
    if i >= count(v) {
        Outcome::Done(s)
    } else {
        proof {
            lemma_child_decreases(v, i as int);
        }
        match run(s.with_key(child_key(v, i as int)), child(v, i as int)) {
            Outcome::Done(t) => run_children(t, v, i + 1),
            o => o,
        }
    }
}

/// Serializes a variant with one unnamed field: a document that holds the field under the name
/// of the variant.
pub open spec fn newtype_variant(s: State, variant: Seq<char>, inside: Value) -> Outcome {
    match open_document(s, ElementType::EmbeddedDocument) {
        Outcome::Done(t) => run(t.with_key(variant), inside).emit(seq![0u8]),
        o => o,
    }
}

/// Serializing a variant with one unnamed field, step by step.
pub proof fn lemma_newtype_variant(s: State, v: Value)
    ensures
        v matches Value::NewtypeVariant { variant, value, .. } ==> run(s, v) == newtype_variant(
            s,
            variant@,
            *value,
        ),
{
    if let Value::NewtypeVariant { variant, value, .. } = v {
        if let Outcome::Done(t) = open_document(s, ElementType::EmbeddedDocument) {
            reveal_with_fuel(run_children, 2);
            assert(run_children(t, v, 0) == run(t.with_key(variant@), *value));
        }
    }
}

/// A value inside a container is smaller than the container.
pub proof fn lemma_child_decreases(v: Value, i: int)
    requires
        0 <= i < count(v),
    ensures
        decreases_to!(v => child(v, i)),
{
    match v {
        Value::Sequence(elements) => {
            assert(decreases_to!(elements => elements@));
            assert(decreases_to!(elements@ => elements@[i]));
        },
        Value::Tuple(elements) => {
            assert(decreases_to!(elements => elements@));
            assert(decreases_to!(elements@ => elements@[i]));
        },
        Value::TupleStruct { elements, .. } => {
            assert(decreases_to!(elements => elements@));
            assert(decreases_to!(elements@ => elements@[i]));
        },
        Value::TupleVariant { elements, .. } => {
            assert(decreases_to!(elements => elements@));
            assert(decreases_to!(elements@ => elements@[i]));
        },
        Value::Mapping(entries) => {
            assert(decreases_to!(entries => entries@));
            assert(decreases_to!(entries@ => entries@[i]));
            assert(decreases_to!(entries@[i] => entries@[i].1));
        },
        Value::Struct { fields, .. } => {
            assert(decreases_to!(fields => fields@));
            assert(decreases_to!(fields@ => fields@[i]));
            assert(decreases_to!(fields@[i] => fields@[i].value));
        },
        Value::StructVariant { fields, .. } => {
            assert(decreases_to!(fields => fields@));
            assert(decreases_to!(fields@ => fields@[i]));
            assert(decreases_to!(fields@[i] => fields@[i].value));
        },
        _ => {},
    }
}

} // verus!
