//! The parts of the serializer that are in use while a document, a struct or a variant is open.

use crate::element::ElementType;
use crate::element::ValueType;
use crate::error::Error;
use crate::model;
use crate::model::Outcome;
use crate::serializer::Key;
use crate::serializer::Serializer;
use crate::text;
use crate::value::Field;
use crate::value::Value;
use vstd::prelude::*;

verus! {

/// Serializer used for the body of a document or an array.
pub struct DocumentSerializer<'a> {
    pub root_serializer: &'a mut Serializer,
    /// How many elements have been serialized in the document so far.
    pub num_keys_serialized: usize,
}

impl<'a> DocumentSerializer<'a> {
    /// Opens a document: writes its recorded length.
    pub fn start(rs: &'a mut Serializer) -> (r: Result<DocumentSerializer<'a>, Error>)
        requires
            old(rs)@.lens.len() > 0,
        ensures
            r matches Ok(d) && d.num_keys_serialized == 0 && *final(d.root_serializer) == *final(rs)
                && Outcome::Done((*d.root_serializer)@) == model::next_len(old(rs)@),
    {
        rs.write_next_len()?;
        Ok(DocumentSerializer { root_serializer: rs, num_keys_serialized: 0 })
    }

    /// Serializes the next element of the document under the key `k`.
    fn serialize_keyed(&mut self, k: Key, value: &Value) -> (r: Result<(), Error>)
        requires
            old(self).num_keys_serialized < usize::MAX,
            model::run((*old(self).root_serializer)@.with_key(k.text()), *value) !is Undefined,
        ensures
            model::outcome(r, (*final(self).root_serializer)@) == model::run(
                (*old(self).root_serializer)@.with_key(k.text()),
                *value,
            ),
            r is Ok ==> final(self).num_keys_serialized == old(self).num_keys_serialized + 1,
            r is Err ==> final(self).num_keys_serialized == old(self).num_keys_serialized,
            *final(final(self).root_serializer) == *final(old(self).root_serializer),
        decreases value, 2nat,
    {
        self.root_serializer.set_next_key(k);
        self.root_serializer.serialize(value)?;
        self.num_keys_serialized += 1;
        Ok(())
    }

    /// Serializes the next element of an array, under its index.
    pub fn serialize_element(&mut self, value: &Value) -> (r: Result<(), Error>)
        requires
            old(self).num_keys_serialized < usize::MAX,
            model::run(
                (*old(self).root_serializer)@.with_key(
                    text::decimal(old(self).num_keys_serialized as nat),
                ),
                *value,
            ) !is Undefined,
        ensures
            model::outcome(r, (*final(self).root_serializer)@) == model::run(
                (*old(self).root_serializer)@.with_key(
                    text::decimal(old(self).num_keys_serialized as nat),
                ),
                *value,
            ),
            r is Ok ==> final(self).num_keys_serialized == old(self).num_keys_serialized + 1,
            r is Err ==> final(self).num_keys_serialized == old(self).num_keys_serialized,
            *final(final(self).root_serializer) == *final(old(self).root_serializer),
        decreases value, 3nat,
    {
        let index = self.num_keys_serialized;
        self.serialize_keyed(Key::Index(index), value)
    }

    /// Serializes an entry of a mapping.
    pub fn serialize_entry(&mut self, key: &str, value: &Value) -> (r: Result<(), Error>)
        requires
            old(self).num_keys_serialized < usize::MAX,
            model::run((*old(self).root_serializer)@.with_key(key@), *value) !is Undefined,
        ensures
            model::outcome(r, (*final(self).root_serializer)@) == model::run(
                (*old(self).root_serializer)@.with_key(key@),
                *value,
            ),
            r is Ok ==> final(self).num_keys_serialized == old(self).num_keys_serialized + 1,
            r is Err ==> final(self).num_keys_serialized == old(self).num_keys_serialized,
            *final(final(self).root_serializer) == *final(old(self).root_serializer),
        decreases value, 3nat,
    {
        self.serialize_keyed(Key::Owned(key.to_owned()), value)
    }

    /// Serializes a field of a struct.
    pub fn serialize_field(&mut self, key: &'static str, value: &Value) -> (r: Result<(), Error>)
        requires
            old(self).num_keys_serialized < usize::MAX,
            model::run((*old(self).root_serializer)@.with_key(key@), *value) !is Undefined,
        ensures
            model::outcome(r, (*final(self).root_serializer)@) == model::run(
                (*old(self).root_serializer)@.with_key(key@),
                *value,
            ),
            r is Ok ==> final(self).num_keys_serialized == old(self).num_keys_serialized + 1,
            r is Err ==> final(self).num_keys_serialized == old(self).num_keys_serialized,
            *final(final(self).root_serializer) == *final(old(self).root_serializer),
        decreases value, 3nat,
    {
        self.serialize_keyed(Key::Static(key), value)
    }

    /// Serializes all elements of an array `v` that has none yet.
    pub(crate) fn serialize_elements(
        &mut self,
        elements: &Vec<Value>,
        v: Ghost<Value>,
    ) -> (r: Result<(), Error>)
        requires
            old(self).num_keys_serialized == 0,
            model::count(v@) == elements@.len(),
            forall|i: int|
                #![trigger model::child(v@, i)]
                0 <= i < elements@.len() ==> model::child(v@, i) == elements@[i],
            forall|i: int|
                #![trigger model::child_key(v@, i)]
                0 <= i < elements@.len() ==> model::child_key(v@, i) == text::decimal(i as nat),
            model::run_children((*old(self).root_serializer)@, v@, 0) !is Undefined,
        ensures
            model::outcome(r, (*final(self).root_serializer)@) == model::run_children(
                (*old(self).root_serializer)@,
                v@,
                0,
            ),
            *final(final(self).root_serializer) == *final(old(self).root_serializer),
        decreases elements, 3nat,
    {
        let mut i: usize = 0;
        while i < elements.len()
            invariant
                i <= elements.len(),
                self.num_keys_serialized == i,
                model::count(v@) == elements@.len(),
                forall|i: int|
                    #![trigger model::child(v@, i)]
                    0 <= i < elements@.len() ==> model::child(v@, i) == elements@[i],
                forall|i: int|
                    #![trigger model::child_key(v@, i)]
                    0 <= i < elements@.len() ==> model::child_key(v@, i) == text::decimal(i as nat),
                model::run_children((*old(self).root_serializer)@, v@, 0) !is Undefined,
                model::run_children((*old(self).root_serializer)@, v@, 0) == model::run_children(
                    (*self.root_serializer)@,
                    v@,
                    i as nat,
                ),
                *final(self.root_serializer) == *final(old(self).root_serializer),
            decreases elements.len() - i,
        {
            self.serialize_element(&elements[i])?;
            i += 1;
        }
        Ok(())
    }

    /// Serializes all entries of a mapping `v` that has none yet.
    pub(crate) fn serialize_entries(
        &mut self,
        entries: &Vec<(String, Value)>,
        v: Ghost<Value>,
    ) -> (r: Result<(), Error>)
        requires
            old(self).num_keys_serialized == 0,
            model::count(v@) == entries@.len(),
            forall|i: int|
                #![trigger model::child(v@, i)]
                0 <= i < entries@.len() ==> model::child(v@, i) == entries@[i].1,
            forall|i: int|
                #![trigger model::child_key(v@, i)]
                0 <= i < entries@.len() ==> model::child_key(v@, i) == entries@[i].0@,
            model::run_children((*old(self).root_serializer)@, v@, 0) !is Undefined,
        ensures
            model::outcome(r, (*final(self).root_serializer)@) == model::run_children(
                (*old(self).root_serializer)@,
                v@,
                0,
            ),
            *final(final(self).root_serializer) == *final(old(self).root_serializer),
        decreases entries, 3nat,
    {
        let mut i: usize = 0;
        while i < entries.len()
            invariant
                i <= entries.len(),
                self.num_keys_serialized == i,
                model::count(v@) == entries@.len(),
                forall|i: int|
                    #![trigger model::child(v@, i)]
                    0 <= i < entries@.len() ==> model::child(v@, i) == entries@[i].1,
                forall|i: int|
                    #![trigger model::child_key(v@, i)]
                    0 <= i < entries@.len() ==> model::child_key(v@, i) == entries@[i].0@,
                model::run_children((*old(self).root_serializer)@, v@, 0) !is Undefined,
                model::run_children((*old(self).root_serializer)@, v@, 0) == model::run_children(
                    (*self.root_serializer)@,
                    v@,
                    i as nat,
                ),
                *final(self.root_serializer) == *final(old(self).root_serializer),
            decreases entries.len() - i,
        {
            self.serialize_entry(entries[i].0.as_str(), &entries[i].1)?;
            i += 1;
        }
        Ok(())
    }

    /// Closes the document: writes its final zero byte.
    pub fn end_doc(self) -> (r: Result<(), Error>)
        ensures
            r is Ok,
            (*final(self.root_serializer))@ == (*old(self.root_serializer))@.emit(seq![0u8]),
    {
        self.root_serializer.write_all(&[0]);
        proof {
            lemma_zero_bytes();
        }
        Ok(())
    }
}

proof fn lemma_zero_bytes()
    ensures
        [0u8]@ == seq![0u8],
        [0u8, 0u8]@ == seq![0u8, 0u8],
{
    assert([0u8]@ =~= seq![0u8]);
    assert([0u8, 0u8]@ =~= seq![0u8, 0u8]);
}

/// What the inner part of a variant is.
#[derive(Clone, Copy, Debug, PartialEq, Eq, Structural)]
pub enum VariantInnerType {
    Tuple,
    Struct,
}

impl VariantInnerType {
    /// The type of the element that holds the inner part.
    pub open spec fn element_type(self) -> ElementType {
        match self {
            VariantInnerType::Struct => ElementType::EmbeddedDocument,
            VariantInnerType::Tuple => ElementType::Array,
        }
    }
}

/// Serializer used for enum variants, including both tuple (e.g. Foo::Bar(1, 2, 3)) and
/// struct (e.g. Foo::Bar { a: 1 }).
pub struct VariantSerializer<'a> {
    pub root_serializer: &'a mut Serializer,
    /// How many elements have been serialized in the inner document / array so far.
    pub num_elements_serialized: usize,
}

impl<'a> VariantSerializer<'a> {
    /// Opens the outer document and, under the name of the variant, the inner one.
    pub fn start(
        rs: &'a mut Serializer,
        variant: &'static str,
        inner_type: VariantInnerType,
    ) -> (r: Result<VariantSerializer<'a>, Error>)
        requires
            model::start_variant(old(rs)@, variant@, inner_type.element_type()) !is Undefined,
        ensures
            r matches Ok(v) ==> v.num_elements_serialized == 0 && *final(v.root_serializer)
                == *final(rs) && model::start_variant(
                old(rs)@,
                variant@,
                inner_type.element_type(),
            ) == Outcome::Done((*v.root_serializer)@),
            r matches Err(e) ==> model::start_variant(
                old(rs)@,
                variant@,
                inner_type.element_type(),
            ) == Outcome::Failed(final(rs)@, e@),
    {
        rs.write_next_len()?;

        let inner = match inner_type {
            VariantInnerType::Struct => ElementType::EmbeddedDocument,
            VariantInnerType::Tuple => ElementType::Array,
        };
        let ghost before = rs@;
        rs.write_all(&[inner.code()]);
        assert(rs@.out =~= before.out + seq![inner.spec_code()]);
        rs.write_cstring(variant)?;
        rs.write_next_len()?;

        Ok(VariantSerializer { root_serializer: rs, num_elements_serialized: 0 })
    }

    /// Serializes the next element of the inner part.
    pub fn serialize_element(&mut self, k: Key, v: &Value) -> (r: Result<(), Error>)
        requires
            old(self).num_elements_serialized < usize::MAX,
            model::run((*old(self).root_serializer)@.with_key(k.text()), *v) !is Undefined,
        ensures
            model::outcome(r, (*final(self).root_serializer)@) == model::run(
                (*old(self).root_serializer)@.with_key(k.text()),
                *v,
            ),
            r is Ok ==> final(self).num_elements_serialized == old(self).num_elements_serialized
                + 1,
            r is Err ==> final(self).num_elements_serialized == old(self).num_elements_serialized,
            *final(final(self).root_serializer) == *final(old(self).root_serializer),
        decreases v, 2nat,
    {
        self.root_serializer.set_next_key(k);
        self.root_serializer.serialize(v)?;

        self.num_elements_serialized += 1;
        Ok(())
    }

    /// Serializes the next field of a tuple variant, under its index.
    pub fn serialize_tuple_field(&mut self, value: &Value) -> (r: Result<(), Error>)
        requires
            old(self).num_elements_serialized < usize::MAX,
            model::run(
                (*old(self).root_serializer)@.with_key(
                    text::decimal(old(self).num_elements_serialized as nat),
                ),
                *value,
            ) !is Undefined,
        ensures
            model::outcome(r, (*final(self).root_serializer)@) == model::run(
                (*old(self).root_serializer)@.with_key(
                    text::decimal(old(self).num_elements_serialized as nat),
                ),
                *value,
            ),
            r is Ok ==> final(self).num_elements_serialized == old(self).num_elements_serialized
                + 1,
            r is Err ==> final(self).num_elements_serialized == old(self).num_elements_serialized,
            *final(final(self).root_serializer) == *final(old(self).root_serializer),
        decreases value, 3nat,
    {
        let index = self.num_elements_serialized;
        self.serialize_element(Key::Index(index), value)
    }

    /// Serializes the next field of a struct variant, under its name.
    pub fn serialize_field(&mut self, key: &'static str, value: &Value) -> (r: Result<(), Error>)
        requires
            old(self).num_elements_serialized < usize::MAX,
            model::run((*old(self).root_serializer)@.with_key(key@), *value) !is Undefined,
        ensures
            model::outcome(r, (*final(self).root_serializer)@) == model::run(
                (*old(self).root_serializer)@.with_key(key@),
                *value,
            ),
            r is Ok ==> final(self).num_elements_serialized == old(self).num_elements_serialized
                + 1,
            r is Err ==> final(self).num_elements_serialized == old(self).num_elements_serialized,
            *final(final(self).root_serializer) == *final(old(self).root_serializer),
        decreases value, 3nat,
    {
        self.serialize_element(Key::Static(key), value)
    }

    /// Serializes all fields of a tuple variant `v` that has none yet.
    pub(crate) fn serialize_tuple_fields(
        &mut self,
        elements: &Vec<Value>,
        v: Ghost<Value>,
    ) -> (r: Result<(), Error>)
        requires
            old(self).num_elements_serialized == 0,
            model::count(v@) == elements@.len(),
            forall|i: int|
                #![trigger model::child(v@, i)]
                0 <= i < elements@.len() ==> model::child(v@, i) == elements@[i],
            forall|i: int|
                #![trigger model::child_key(v@, i)]
                0 <= i < elements@.len() ==> model::child_key(v@, i) == text::decimal(i as nat),
            model::run_children((*old(self).root_serializer)@, v@, 0) !is Undefined,
        ensures
            model::outcome(r, (*final(self).root_serializer)@) == model::run_children(
                (*old(self).root_serializer)@,
                v@,
                0,
            ),
            *final(final(self).root_serializer) == *final(old(self).root_serializer),
        decreases elements, 3nat,
    {
        let mut i: usize = 0;
        while i < elements.len()
            invariant
                i <= elements.len(),
                self.num_elements_serialized == i,
                model::count(v@) == elements@.len(),
                forall|i: int|
                    #![trigger model::child(v@, i)]
                    0 <= i < elements@.len() ==> model::child(v@, i) == elements@[i],
                forall|i: int|
                    #![trigger model::child_key(v@, i)]
                    0 <= i < elements@.len() ==> model::child_key(v@, i) == text::decimal(i as nat),
                model::run_children((*old(self).root_serializer)@, v@, 0) !is Undefined,
                model::run_children((*old(self).root_serializer)@, v@, 0) == model::run_children(
                    (*self.root_serializer)@,
                    v@,
                    i as nat,
                ),
                *final(self.root_serializer) == *final(old(self).root_serializer),
            decreases elements.len() - i,
        {
            self.serialize_tuple_field(&elements[i])?;
            i += 1;
        }
        Ok(())
    }

    /// Serializes all fields of a struct variant `v` that has none yet.
    pub(crate) fn serialize_fields(
        &mut self,
        fields: &Vec<Field>,
        v: Ghost<Value>,
    ) -> (r: Result<(), Error>)
        requires
            old(self).num_elements_serialized == 0,
            model::count(v@) == fields@.len(),
            forall|i: int|
                #![trigger model::child(v@, i)]
                0 <= i < fields@.len() ==> model::child(v@, i) == fields@[i].value,
            forall|i: int|
                #![trigger model::child_key(v@, i)]
                0 <= i < fields@.len() ==> model::child_key(v@, i) == fields@[i].key@,
            model::run_children((*old(self).root_serializer)@, v@, 0) !is Undefined,
        ensures
            model::outcome(r, (*final(self).root_serializer)@) == model::run_children(
                (*old(self).root_serializer)@,
                v@,
                0,
            ),
            *final(final(self).root_serializer) == *final(old(self).root_serializer),
        decreases fields, 3nat,
    {
        let mut i: usize = 0;
        while i < fields.len()
            invariant
                i <= fields.len(),
                self.num_elements_serialized == i,
                model::count(v@) == fields@.len(),
                forall|i: int|
                    #![trigger model::child(v@, i)]
                    0 <= i < fields@.len() ==> model::child(v@, i) == fields@[i].value,
                forall|i: int|
                    #![trigger model::child_key(v@, i)]
                    0 <= i < fields@.len() ==> model::child_key(v@, i) == fields@[i].key@,
                model::run_children((*old(self).root_serializer)@, v@, 0) !is Undefined,
                model::run_children((*old(self).root_serializer)@, v@, 0) == model::run_children(
                    (*self.root_serializer)@,
                    v@,
                    i as nat,
                ),
                *final(self.root_serializer) == *final(old(self).root_serializer),
            decreases fields.len() - i,
        {
            self.serialize_field(fields[i].key, &fields[i].value)?;
            i += 1;
        }
        Ok(())
    }

    /// Closes both documents.
    pub fn end_both(self) -> (r: Result<(), Error>)
        ensures
            r is Ok,
            (*final(self.root_serializer))@ == (*old(self.root_serializer))@.emit(
                seq![0u8, 0u8],
            ),
    {
        // A zero byte for the inner and one for the outer document.
        self.root_serializer.write_all(&[0, 0]);
        proof {
            lemma_zero_bytes();
        }
        Ok(())
    }

    /// Closes the variant.
    pub fn end(self) -> (r: Result<(), Error>)
        ensures
            r is Ok,
            (*final(self.root_serializer))@ == (*old(self.root_serializer))@.emit(
                seq![0u8, 0u8],
            ),
    {
        self.end_both()
    }
}

/// Serializer used for a BSON value that the data model shows as a struct (e.g. an object id).
/// It places the bytes that the fields contribute after the key of the value.
pub struct ValueSerializer<'a> {
    pub root_serializer: &'a mut Serializer,
    pub value_type: ValueType,
}

impl<'a> ValueSerializer<'a> {
    /// A serializer for a value of the given type, whose key has been written.
    pub fn new(rs: &'a mut Serializer, value_type: ValueType) -> (r: ValueSerializer<'a>)
        ensures
            r.value_type == value_type,
            (*r.root_serializer)@ == old(rs)@,
            *final(r.root_serializer) == *final(rs),
    {
        ValueSerializer { root_serializer: rs, value_type }
    }

    /// Writes what a field contributes, or fails where it contributes nothing.
    pub fn serialize_field(&mut self, extended: &Result<Vec<u8>, String>) -> (r: Result<(), Error>)
        ensures
            model::outcome(r, (*final(self).root_serializer)@) == model::put_extended(
                (*old(self).root_serializer)@,
                *extended,
            ),
            final(self).value_type == old(self).value_type,
            *final(final(self).root_serializer) == *final(old(self).root_serializer),
    {
        match extended {
            Ok(bytes) => {
                self.root_serializer.write_all(bytes.as_slice());
                Ok(())
            },
            Err(message) => Err(Error::SerializationError { message: message.clone() }),
        }
    }
}

/// Serializer used for structs.
pub enum StructSerializer<'a> {
    /// Serialize a BSON value that the data model shows as a struct (e.g. an object id).
    Value(ValueSerializer<'a>),
    /// Serialize the struct as a document.
    Document(DocumentSerializer<'a>),
}

impl<'a> StructSerializer<'a> {
    /// Serializes a field: a document takes its value, a BSON value what it contributes.
    pub fn serialize_field(
        &mut self,
        key: &'static str,
        value: &Value,
        extended: &Result<Vec<u8>, String>,
    ) -> (r: Result<(), Error>)
        requires
            *old(self) matches StructSerializer::Document(d) ==> d.num_keys_serialized < usize::MAX
                && model::run((*d.root_serializer)@.with_key(key@), *value) !is Undefined,
        ensures
            *old(self) matches StructSerializer::Value(v) ==> (*final(self) matches
                StructSerializer::Value(w) && w.value_type == v.value_type && model::outcome(
                r,
                (*w.root_serializer)@,
            ) == model::put_extended((*v.root_serializer)@, *extended)
                && *final(w.root_serializer) == *final(v.root_serializer)),
            *old(self) matches StructSerializer::Document(d) ==> (*final(self) matches
                StructSerializer::Document(e) && model::outcome(r, (*e.root_serializer)@)
                == model::run((*d.root_serializer)@.with_key(key@), *value)
                && e.num_keys_serialized == d.num_keys_serialized + (if r is Ok {
                1int
            } else {
                0int
            }) && *final(e.root_serializer) == *final(d.root_serializer)),
        decreases value, 4nat,
    {
        match self {
            StructSerializer::Value(v) => v.serialize_field(extended),
            StructSerializer::Document(d) => d.serialize_field(key, value),
        }
    }

    /// Serializes all fields of a struct `v` that has none yet.
    pub(crate) fn serialize_fields(
        &mut self,
        fields: &Vec<Field>,
        v: Ghost<Value>,
    ) -> (r: Result<(), Error>)
        requires
            model::count(v@) == fields@.len(),
            forall|i: int|
                #![trigger model::child(v@, i)]
                0 <= i < fields@.len() ==> model::child(v@, i) == fields@[i].value,
            forall|i: int|
                #![trigger model::child_key(v@, i)]
                0 <= i < fields@.len() ==> model::child_key(v@, i) == fields@[i].key@,
            *old(self) matches StructSerializer::Document(d) ==> d.num_keys_serialized == 0
                && model::run_children((*d.root_serializer)@, v@, 0) !is Undefined,
        ensures
            *old(self) matches StructSerializer::Value(x) ==> (*final(self) matches
                StructSerializer::Value(y) && model::outcome(r, (*y.root_serializer)@)
                == model::put_extended_fields((*x.root_serializer)@, fields@, 0)
                && *final(y.root_serializer) == *final(x.root_serializer)),
            *old(self) matches StructSerializer::Document(d) ==> (*final(self) matches
                StructSerializer::Document(e) && model::outcome(r, (*e.root_serializer)@)
                == model::run_children((*d.root_serializer)@, v@, 0) && *final(e.root_serializer)
                == *final(d.root_serializer)),
        decreases fields, 4nat,
    {
        let mut i: usize = 0;
        while i < fields.len()
            invariant
                i <= fields.len(),
                model::count(v@) == fields@.len(),
                forall|i: int|
                    #![trigger model::child(v@, i)]
                    0 <= i < fields@.len() ==> model::child(v@, i) == fields@[i].value,
                forall|i: int|
                    #![trigger model::child_key(v@, i)]
                    0 <= i < fields@.len() ==> model::child_key(v@, i) == fields@[i].key@,
                *old(self) matches StructSerializer::Value(x) ==> (*self matches
                    StructSerializer::Value(y) && model::put_extended_fields(
                    (*x.root_serializer)@,
                    fields@,
                    0,
                ) == model::put_extended_fields((*y.root_serializer)@, fields@, i as nat)
                    && *final(y.root_serializer) == *final(x.root_serializer)),
                *old(self) matches StructSerializer::Document(d) ==> (*self matches
                    StructSerializer::Document(e) && e.num_keys_serialized == i
                    && model::run_children((*d.root_serializer)@, v@, 0) !is Undefined
                    && model::run_children((*d.root_serializer)@, v@, 0) == model::run_children(
                    (*e.root_serializer)@,
                    v@,
                    i as nat,
                ) && *final(e.root_serializer) == *final(d.root_serializer)),
            decreases fields.len() - i,
        {
            self.serialize_field(fields[i].key, &fields[i].value, &fields[i].extended)?;
            i += 1;
        }
        Ok(())
    }

    /// Closes the struct.
    pub fn end(self) -> (r: Result<(), Error>)
        ensures
            r is Ok,
            self matches StructSerializer::Document(d) ==> (*final(d.root_serializer))@
                == (*d.root_serializer)@.emit(seq![0u8]),
            self matches StructSerializer::Value(v) ==> (*final(v.root_serializer))@
                == (*v.root_serializer)@,
    {
        match self {
            StructSerializer::Document(d) => d.end_doc(),
            StructSerializer::Value(_v) => Ok(()),
        }
    }
}

/// The inner part of a tuple variant is an array, that of a struct variant a document.
pub proof fn law_inner_types(inner_type: VariantInnerType)
    ensures
        inner_type is Tuple <==> inner_type.element_type() is Array,
        inner_type is Struct <==> inner_type.element_type() is EmbeddedDocument,
{
}

} // verus!
