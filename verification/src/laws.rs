//! What holds of every serialization.

use crate::element;
use crate::element::ElementType;
use crate::encoding;
use crate::error;
use crate::error::Failure;
use crate::little_endian;
use crate::model;
use crate::model::Outcome;
use crate::model::State;
use crate::serializer::SerializerHint;
use crate::text;
use crate::value;
use crate::value::Field;
use crate::value::Value;
use vstd::prelude::*;

verus! {

/// `t` comes after `s`: what was written stays in place, recorded lengths leave from the front
/// only, an opened document is not forgotten, and the human-readable setting is as it was.
#[verifier::opaque]
pub open spec fn follows(s: State, t: State) -> bool {
    &&& s.out.is_prefix_of(t.out)
    &&& t.lens.is_suffix_of(s.lens)
    &&& s.started ==> t.started
    &&& t.human_readable == s.human_readable
}

/// The state that an outcome leaves comes after `s`.
pub open spec fn outcome_follows(s: State, o: Outcome) -> bool {
    match o {
        Outcome::Done(t) => follows(s, t),
        Outcome::Failed(t, _) => follows(s, t),
        Outcome::Undefined => true,
    }
}

proof fn lemma_follows_transitive(s: State, t: State, u: State)
    requires
        follows(s, t),
        follows(t, u),
    ensures
        follows(s, u),
{
    reveal(follows);
    assert(s.out =~= u.out.subrange(0, s.out.len() as int)) by {
        assert(s.out =~= t.out.subrange(0, s.out.len() as int));
        assert(t.out =~= u.out.subrange(0, t.out.len() as int));
        assert forall|i: int| 0 <= i < s.out.len() implies s.out[i] == u.out[i] by {
            assert(s.out[i] == t.out.subrange(0, s.out.len() as int)[i]);
            assert(t.out[i] == u.out.subrange(0, t.out.len() as int)[i]);
        }
    }
    let n = s.lens.len() as int;
    let m = t.lens.len() as int;
    let k = u.lens.len() as int;
    assert(u.lens =~= s.lens.subrange(n - k, n)) by {
        assert forall|i: int| 0 <= i < k implies u.lens[i] == s.lens[n - k + i] by {
            assert(u.lens[i] == t.lens.subrange(m - k, m)[i]);
            assert(t.lens[m - k + i] == s.lens.subrange(n - m, n)[m - k + i]);
        }
    }
}

proof fn lemma_emit_follows(s: State, bytes: Seq<u8>)
    ensures
        follows(s, s.emit(bytes)),
{
    reveal(follows);
    assert(s.out =~= s.emit(bytes).out.subrange(0, s.out.len() as int));
    assert(s.lens =~= s.lens.subrange(0, s.lens.len() as int));
}

/// The key, the hint and a step that writes nothing make no difference.
proof fn lemma_settings_follow(s: State, t: State)
    requires
        s.out == t.out,
        s.lens == t.lens,
        s.started == t.started,
        s.human_readable == t.human_readable,
    ensures
        follows(s, t),
{
    reveal(follows);
    assert(s.out =~= s.out.subrange(0, s.out.len() as int));
    assert(s.lens =~= s.lens.subrange(0, s.lens.len() as int));
}

proof fn lemma_newtype_follows(s: State, name: Seq<char>, o: Outcome)
    requires
        outcome_follows(model::enter_newtype(s, name), o),
    ensures
        outcome_follows(s, model::leave_newtype(s, name, o)),
{
    reveal(follows);
}

proof fn lemma_outcome_emit_follows(s: State, o: Outcome, bytes: Seq<u8>)
    requires
        outcome_follows(s, o),
    ensures
        outcome_follows(s, o.emit(bytes)),
{
    if let Outcome::Done(t) = o {
        lemma_emit_follows(t, bytes);
        lemma_follows_transitive(s, t, t.emit(bytes));
    }
}

proof fn lemma_outcome_follows_transitive(s: State, t: State, o: Outcome)
    requires
        follows(s, t),
        outcome_follows(t, o),
    ensures
        outcome_follows(s, o),
{
    match o {
        Outcome::Done(u) => lemma_follows_transitive(s, t, u),
        Outcome::Failed(u, _) => lemma_follows_transitive(s, t, u),
        Outcome::Undefined => {},
    }
}

proof fn lemma_key_follows(s: State, t: ElementType)
    ensures
        outcome_follows(s, model::key(s, t)),
{
    lemma_settings_follow(s, s);
    if let Some(text) = s.next_key {
        let u = State { next_key: None, ..s };
        lemma_settings_follow(s, u);
        lemma_emit_follows(u, seq![t.spec_code()]);
        let w = u.emit(seq![t.spec_code()]);
        lemma_follows_transitive(s, u, w);
        lemma_emit_follows(w, model::cstring_bytes(text));
        lemma_follows_transitive(s, w, w.emit(model::cstring_bytes(text)));
    }
}

proof fn lemma_element_follows(s: State, t: ElementType, body: Seq<u8>)
    ensures
        outcome_follows(s, model::element(s, t, body)),
{
    lemma_key_follows(s, t);
    lemma_outcome_emit_follows(s, model::key(s, t), body);
}

proof fn lemma_next_len_follows(s: State)
    ensures
        outcome_follows(s, model::next_len(s)),
{
    reveal(follows);
    if s.lens.len() > 0 {
        let bytes = little_endian::i32_bytes(s.lens[0]);
        assert(s.out =~= (s.out + bytes).subrange(0, s.out.len() as int));
    }
}

proof fn lemma_open_follows(s: State, variant: Seq<char>, t: ElementType)
    ensures
        outcome_follows(s, model::open_document(s, t)),
        outcome_follows(s, model::open_variant(s, variant, t)),
{
    lemma_key_follows(s, t);
    if let Outcome::Done(u) = model::key(s, t) {
        lemma_next_len_follows(u);
        lemma_outcome_follows_transitive(s, u, model::next_len(u));
    }
    lemma_key_follows(s, ElementType::EmbeddedDocument);
    if let Outcome::Done(u) = model::key(s, ElementType::EmbeddedDocument) {
        lemma_next_len_follows(u);
        lemma_outcome_follows_transitive(s, u, model::next_len(u));
        lemma_outcome_emit_follows(s, model::next_len(u), seq![t.spec_code()]);
        if let Outcome::Done(w) = model::next_len(u).emit(seq![t.spec_code()]) {
            lemma_emit_follows(w, model::cstring_bytes(variant));
            let x = w.emit(model::cstring_bytes(variant));
            lemma_follows_transitive(s, w, x);
            lemma_next_len_follows(x);
            lemma_outcome_follows_transitive(s, x, model::next_len(x));
        }
    }
}

proof fn lemma_scalar_follows(s: State, v: Value)
    ensures
        outcome_follows(s, model::put_scalar(s, v)),
{
    match v {
        Value::Bytes(bytes) => {
            let u = State { hint: SerializerHint::Absent, ..s };
            lemma_settings_follow(s, u);
            lemma_key_follows(u, ElementType::Binary);
            lemma_outcome_follows_transitive(s, u, model::key(u, ElementType::Binary));
            if let Outcome::Done(w) = model::key(u, ElementType::Binary) {
                let uuid = model::binary_bytes(bytes@, element::BinarySubtype::Uuid);
                let generic = model::binary_bytes(bytes@, element::BinarySubtype::Generic);
                lemma_emit_follows(w, uuid);
                lemma_emit_follows(w, generic);
                lemma_follows_transitive(s, w, w.emit(uuid));
                lemma_follows_transitive(s, w, w.emit(generic));
            }
            let document = model::element(u, ElementType::EmbeddedDocument, bytes@);
            let array = model::element(u, ElementType::Array, bytes@);
            lemma_element_follows(u, ElementType::EmbeddedDocument, bytes@);
            lemma_element_follows(u, ElementType::Array, bytes@);
            lemma_outcome_follows_transitive(s, u, document);
            lemma_outcome_follows_transitive(s, u, array);
        },
        Value::Struct { name, fields } => {
            lemma_open_follows(s, seq![], ElementType::EmbeddedDocument);
            if let Some(value_type) = element::reserved_type(name@) {
                lemma_key_follows(s, value_type.spec_element_type());
            }
            if let Outcome::Done(t) = model::open_struct(s, name@) {
                lemma_extended_follow(t, fields@, 0);
                lemma_outcome_follows_transitive(
                    s,
                    t,
                    model::put_extended_fields(t, fields@, 0),
                );
            }
        },
        _ => {
            lemma_settings_follow(s, s);
            assert forall|t: ElementType, body: Seq<u8>|
                outcome_follows(s, #[trigger] model::element(s, t, body)) by {
                lemma_element_follows(s, t, body);
            }
            assert forall|text: Seq<char>|
                outcome_follows(s, #[trigger] model::put_text(s, text)) by {
                lemma_key_follows(s, ElementType::String);
                if let Outcome::Done(u) = model::key(s, ElementType::String) {
                    lemma_emit_follows(u, model::string_bytes(text));
                    lemma_follows_transitive(s, u, u.emit(model::string_bytes(text)));
                }
            }
        },
    }
}

proof fn lemma_extended_follow(s: State, fields: Seq<Field>, i: nat)
    ensures
        outcome_follows(s, model::put_extended_fields(s, fields, i)),
    decreases fields.len() - i,
{
    lemma_settings_follow(s, s);
    if i < fields.len() {
        if let Outcome::Done(t) = model::put_extended(s, fields[i as int].extended) {
            lemma_emit_follows(s, fields[i as int].extended->Ok_0@);
            lemma_extended_follow(t, fields, i + 1);
            lemma_outcome_follows_transitive(s, t, model::put_extended_fields(t, fields, i + 1));
        }
    }
}

/// Whatever the value and however its serialization ends, the bytes written before stay in
/// place, recorded lengths are used up in order, and the human-readable setting comes back.
pub proof fn law_follows(s: State, v: Value)
    ensures
        outcome_follows(s, model::run(s, v)),
    decreases v, model::count(v) + 1,
{
    match v {
        Value::Present(inside) => law_follows(s, *inside),
        Value::TwoForms { human_readable, compact } => {
            law_follows(s, *human_readable);
            law_follows(s, *compact);
        },
        Value::NewtypeStruct { name, value } => {
            let u = model::enter_newtype(s, name@);
            law_follows(u, *value);
            lemma_newtype_follows(s, name@, model::run(u, *value));
        },
        _ => if model::is_container(v) {
            lemma_opening_follows(s, v);
            if let Outcome::Done(t) = model::opening(s, v) {
                let o = model::run_children(t, v, 0);
                lemma_children_follow(t, v, 0);
                lemma_outcome_follows_transitive(s, t, o);
                lemma_outcome_emit_follows(s, o, model::closing(v));
            }
        } else {
            lemma_scalar_follows(s, v);
        },
    }
}

proof fn lemma_opening_follows(s: State, v: Value)
    ensures
        outcome_follows(s, model::opening(s, v)),
{
    lemma_open_follows(s, seq![], ElementType::Array);
    lemma_open_follows(s, seq![], ElementType::EmbeddedDocument);
    if let Value::TupleVariant { variant, .. } = v {
        lemma_open_follows(s, variant@, ElementType::Array);
    }
    if let Value::StructVariant { variant, .. } = v {
        lemma_open_follows(s, variant@, ElementType::EmbeddedDocument);
    }
}

proof fn lemma_children_follow(s: State, v: Value, i: nat)
    ensures
        outcome_follows(s, model::run_children(s, v, i)),
    decreases v, model::count(v) - i,
{
    lemma_settings_follow(s, s);
    if i < model::count(v) {
        let u = s.with_key(model::child_key(v, i as int));
        let o = model::run(u, model::child(v, i as int));
        model::lemma_child_decreases(v, i as int);
        lemma_settings_follow(s, u);
        law_follows(u, model::child(v, i as int));
        lemma_outcome_follows_transitive(s, u, o);
        if let Outcome::Done(t) = o {
            lemma_children_follow(t, v, i + 1);
            lemma_outcome_follows_transitive(s, t, model::run_children(t, v, i + 1));
        }
    }
}

/// How many documents a container itself is written as.
pub open spec fn own_documents(v: Value) -> nat {
    if v is TupleVariant || v is StructVariant {
        2
    } else {
        1
    }
}

/// How many documents are opened while a value is serialized, in human-readable form or not.
pub open spec fn documents(v: Value, readable: bool) -> nat
    decreases v, model::count(v) + 1,
{
    match v {
        Value::Present(inside) => documents(*inside, readable),
        Value::TwoForms { human_readable, compact } => if readable {
            documents(*human_readable, readable)
        } else {
            documents(*compact, readable)
        },
        Value::NewtypeStruct { name, value } => documents(
            *value,
            value::readable_inside(name@, readable),
        ),
        _ => if model::is_container(v) {
            own_documents(v) + documents_inside(v, 0, readable)
        } else {
            0
        },
    }
}

/// How many documents are opened for the values inside a container, from the `i`th on.
pub open spec fn documents_inside(v: Value, i: nat, readable: bool) -> nat
    decreases v, model::count(v) - i,
{
    if i >= model::count(v) {
        0
    } else {
        proof {
            model::lemma_child_decreases(v, i as int);
        }
        documents(model::child(v, i as int), readable) + documents_inside(v, i + 1, readable)
    }
}

/// Whether the sizes of all texts that a value is written with can be written.
pub open spec fn texts_sizable(v: Value, readable: bool) -> bool
    decreases v, model::count(v) + 1,
{
    match v {
        Value::Present(inside) => texts_sizable(*inside, readable),
        Value::TwoForms { human_readable, compact } => if readable {
            texts_sizable(*human_readable, readable)
        } else {
            texts_sizable(*compact, readable)
        },
        Value::NewtypeStruct { name, value } => texts_sizable(
            *value,
            value::readable_inside(name@, readable),
        ),
        Value::Str(text) => model::sizable(vstd::utf8::encode_utf8(text@).len()),
        Value::UnitVariant { variant, .. } => model::sizable(
            vstd::utf8::encode_utf8(variant@).len(),
        ),
        _ => texts_sizable_inside(v, 0, readable),
    }
}

/// Whether the sizes of all texts inside a container can be written, from the `i`th value on.
pub open spec fn texts_sizable_inside(v: Value, i: nat, readable: bool) -> bool
    decreases v, model::count(v) - i,
{
    if i >= model::count(v) {
        true
    } else {
        proof {
            model::lemma_child_decreases(v, i as int);
        }
        texts_sizable(model::child(v, i as int), readable) && texts_sizable_inside(
            v,
            i + 1,
            readable,
        )
    }
}

/// A step that ended in success used the key up, took `n` lengths off the front, and left the
/// human-readable setting as it was.
pub open spec fn used(s: State, o: Outcome, n: nat) -> bool {
    o matches Outcome::Done(t) ==> {
        &&& t.next_key is None
        &&& n <= s.lens.len()
        &&& t.lens == s.lens.skip(n as int)
        &&& t.human_readable == s.human_readable
    }
}

proof fn lemma_scalar_used(s: State, v: Value)
    requires
        v !is Present,
        v !is TwoForms,
        v !is NewtypeStruct,
        !model::is_container(v),
    ensures
        used(s, model::put_scalar(s, v), 0),
        texts_sizable(v, s.human_readable) ==> model::put_scalar(s, v) !is Undefined,
{
    assert(s.lens.skip(0) =~= s.lens);
    match v {
        Value::Char(c) => model::lemma_char_sizable(c),
        Value::Struct { name, fields } => {
            if let Outcome::Done(t) = model::open_struct(s, name@) {
                lemma_extended_used(t, fields@, 0);
            }
        },
        _ => {},
    }
}

proof fn lemma_extended_used(s: State, fields: Seq<Field>, i: nat)
    requires
        s.next_key is None,
    ensures
        used(s, model::put_extended_fields(s, fields, i), 0),
        model::put_extended_fields(s, fields, i) !is Undefined,
    decreases fields.len() - i,
{
    assert(s.lens.skip(0) =~= s.lens);
    if i < fields.len() {
        if let Outcome::Done(t) = model::put_extended(s, fields[i as int].extended) {
            lemma_extended_used(t, fields, i + 1);
        }
    }
}

pub(crate) proof fn lemma_opening_used(s: State, v: Value)
    requires
        model::is_container(v),
    ensures
        used(s, model::opening(s, v), own_documents(v)),
        own_documents(v) <= s.lens.len() ==> model::opening(s, v) !is Undefined,
{
    if s.lens.len() >= 1 {
        assert(s.lens.skip(1) =~= s.lens.drop_first());
    }
    if s.lens.len() >= 2 {
        assert(s.lens.skip(2) =~= s.lens.drop_first().drop_first());
    }
}

pub(crate) proof fn lemma_used(s: State, v: Value)
    ensures
        used(s, model::run(s, v), documents(v, s.human_readable)),
        texts_sizable(v, s.human_readable) && documents(v, s.human_readable) <= s.lens.len()
            ==> model::run(s, v) !is Undefined,
    decreases v, model::count(v) + 1,
{
    match v {
        Value::Present(inside) => lemma_used(s, *inside),
        Value::TwoForms { human_readable, compact } => {
            lemma_used(s, *human_readable);
            lemma_used(s, *compact);
        },
        Value::NewtypeStruct { name, value } => {
            lemma_used(model::enter_newtype(s, name@), *value);
        },
        _ => if model::is_container(v) {
            lemma_opening_used(s, v);
            if let Outcome::Done(t) = model::opening(s, v) {
                lemma_children_used(t, v, 0);
                let n = documents(v, s.human_readable);
                if n <= s.lens.len() {
                    assert(s.lens.skip(own_documents(v) as int).skip(
                        documents_inside(v, 0, s.human_readable) as int,
                    ) =~= s.lens.skip(n as int));
                }
            }
        } else {
            lemma_scalar_used(s, v);
        },
    }
}

proof fn lemma_children_used(s: State, v: Value, i: nat)
    requires
        s.next_key is None,
    ensures
        used(s, model::run_children(s, v, i), documents_inside(v, i, s.human_readable)),
        texts_sizable_inside(v, i, s.human_readable) && documents_inside(v, i, s.human_readable)
            <= s.lens.len() ==> model::run_children(s, v, i) !is Undefined,
    decreases v, model::count(v) - i,
{
    assert(s.lens.skip(0) =~= s.lens);
    if i < model::count(v) {
        let u = s.with_key(model::child_key(v, i as int));
        let c = model::child(v, i as int);
        model::lemma_child_decreases(v, i as int);
        lemma_used(u, c);
        if let Outcome::Done(t) = model::run(u, c) {
            lemma_children_used(t, v, i + 1);
            let n = documents_inside(v, i, s.human_readable);
            if n <= s.lens.len() {
                assert(s.lens.skip(documents(c, s.human_readable) as int).skip(
                    documents_inside(v, i + 1, s.human_readable) as int,
                ) =~= s.lens.skip(n as int));
            }
        }
    }
}

/// A value that was serialized has used up the key set for it, so that none is left over for
/// the next value.
pub proof fn law_key_used_once(s: State, v: Value)
    ensures
        model::run(s, v) matches Outcome::Done(t) ==> t.next_key is None,
{
    lemma_used(s, v);
}

/// A value that was serialized has taken one recorded length for each document it is written
/// as, however deep, and no more.
pub proof fn law_lengths_used(s: State, v: Value)
    ensures
        model::run(s, v) matches Outcome::Done(t) ==> documents(v, s.human_readable)
            <= s.lens.len() && t.lens == s.lens.skip(documents(v, s.human_readable) as int),
{
    lemma_used(s, v);
}

/// With a recorded length for each document, and texts whose sizes can be written, a value can
/// be serialized.
pub proof fn law_lengths_suffice(s: State, v: Value)
    requires
        texts_sizable(v, s.human_readable),
        documents(v, s.human_readable) <= s.lens.len(),
    ensures
        model::run(s, v) !is Undefined,
{
    lemma_used(s, v);
}

/// The type of the element that a value would be written as.
pub open spec fn kind(v: Value, hint: SerializerHint, readable: bool) -> ElementType
    decreases v,
{
    match v {
        Value::Present(inside) => kind(*inside, hint, readable),
        Value::TwoForms { human_readable, compact } => if readable {
            kind(*human_readable, hint, readable)
        } else {
            kind(*compact, hint, readable)
        },
        Value::NewtypeStruct { name, value } => kind(
            *value,
            encoding::hint_inside(name@, hint),
            value::readable_inside(name@, readable),
        ),
        Value::Bool(_) => ElementType::Boolean,
        Value::I8(_) => ElementType::Int32,
        Value::I16(_) => ElementType::Int32,
        Value::I32(_) => ElementType::Int32,
        Value::I64(_) => ElementType::Int64,
        Value::U8(_) => ElementType::Int32,
        Value::U16(_) => ElementType::Int32,
        Value::U32(_) => ElementType::Int64,
        Value::U64(_) => ElementType::Int64,
        Value::F64(_) => ElementType::Double,
        Value::Char(_) => ElementType::String,
        Value::Str(_) => ElementType::String,
        Value::UnitVariant { .. } => ElementType::String,
        Value::Bytes(_) => match hint {
            SerializerHint::RawDocument => ElementType::EmbeddedDocument,
            SerializerHint::RawArray => ElementType::Array,
            _ => ElementType::Binary,
        },
        Value::Struct { name, .. } => match element::reserved_type(name@) {
            Some(value_type) => value_type.spec_element_type(),
            None => ElementType::EmbeddedDocument,
        },
        _ => if model::is_container(v) {
            encoding::container_kind(v)
        } else {
            ElementType::Null
        },
    }
}

/// The value inside all optional values, newtype structs and pairs of forms around it.
pub open spec fn innermost(v: Value, readable: bool) -> Value
    decreases v,
{
    match v {
        Value::Present(inside) => innermost(*inside, readable),
        Value::TwoForms { human_readable, compact } => if readable {
            innermost(*human_readable, readable)
        } else {
            innermost(*compact, readable)
        },
        Value::NewtypeStruct { name, value } => innermost(
            *value,
            value::readable_inside(name@, readable),
        ),
        _ => v,
    }
}

/// The error for a value that has no key and is not the top-level document: that it is not one,
/// unless it is an integer too large to be written anywhere.
pub open spec fn misplaced(v: Value, hint: SerializerHint, readable: bool) -> Failure {
    match innermost(v, readable) {
        Value::U64(x) => if x <= i64::MAX {
            error::non_document(ElementType::Int64)
        } else {
            Failure::UnsignedIntegerExceededRange(x)
        },
        _ => error::non_document(kind(v, hint, readable)),
    }
}

/// Without a key, nothing but the top-level document can be written: anything else fails, and
/// leaves the output and the recorded lengths alone.
pub proof fn law_only_a_document_at_the_top(s: State, v: Value)
    requires
        s.next_key is None,
        s.started || kind(v, s.hint, s.human_readable) != ElementType::EmbeddedDocument,
    ensures
        model::run(s, v) matches Outcome::Failed(t, e) && t.out == s.out && t.lens == s.lens && e
            == misplaced(v, s.hint, s.human_readable),
    decreases v,
{
    match v {
        Value::Present(inside) => law_only_a_document_at_the_top(s, *inside),
        Value::TwoForms { human_readable, compact } => if s.human_readable {
            law_only_a_document_at_the_top(s, *human_readable);
        } else {
            law_only_a_document_at_the_top(s, *compact);
        },
        Value::NewtypeStruct { name, value } => {
            let u = model::enter_newtype(s, name@);
            assert(u.hint == encoding::hint_inside(name@, s.hint));
            law_only_a_document_at_the_top(u, *value);
        },
        _ => {},
    }
}

/// Whether an error blames a text or an integer only for what is wrong with it.
pub open spec fn justified(e: Failure) -> bool {
    match e {
        Failure::InvalidCString(text) => text::has_nul(text),
        Failure::UnsignedIntegerExceededRange(x) => x > i64::MAX,
        Failure::SerializationError(_) => true,
    }
}

/// A text is refused only if it has a NUL character, and an unsigned integer only if it is over
/// the range.
pub proof fn law_refusals_justified(s: State, v: Value)
    ensures
        model::run(s, v) matches Outcome::Failed(_, e) ==> justified(e),
    decreases v, model::count(v) + 1,
{
    match v {
        Value::Present(inside) => law_refusals_justified(s, *inside),
        Value::TwoForms { human_readable, compact } => {
            law_refusals_justified(s, *human_readable);
            law_refusals_justified(s, *compact);
        },
        Value::NewtypeStruct { name, value } => {
            law_refusals_justified(model::enter_newtype(s, name@), *value);
        },
        _ => if model::is_container(v) {
            if let Outcome::Done(t) = model::opening(s, v) {
                lemma_children_justified(t, v, 0);
            }
        } else if let Value::Struct { name, fields } = v {
            if let Outcome::Done(t) = model::open_struct(s, name@) {
                lemma_extended_justified(t, fields@, 0);
            }
        },
    }
}

proof fn lemma_children_justified(s: State, v: Value, i: nat)
    ensures
        model::run_children(s, v, i) matches Outcome::Failed(_, e) ==> justified(e),
    decreases v, model::count(v) - i,
{
    if i < model::count(v) {
        let u = s.with_key(model::child_key(v, i as int));
        let c = model::child(v, i as int);
        model::lemma_child_decreases(v, i as int);
        law_refusals_justified(u, c);
        if let Outcome::Done(t) = model::run(u, c) {
            lemma_children_justified(t, v, i + 1);
        }
    }
}

proof fn lemma_extended_justified(s: State, fields: Seq<Field>, i: nat)
    ensures
        model::put_extended_fields(s, fields, i) matches Outcome::Failed(_, e) ==> justified(e),
    decreases fields.len() - i,
{
    if i < fields.len() {
        if let Outcome::Done(t) = model::put_extended(s, fields[i as int].extended) {
            lemma_extended_justified(t, fields, i + 1);
        }
    }
}

} // verus!
