//! The serializer proper: it writes a value of the data model as raw BSON bytes.

use crate::capacity::NextKey;
use crate::capacity::Outlook;
use crate::compound::DocumentSerializer;
use crate::compound::StructSerializer;
use crate::compound::ValueSerializer;
use crate::compound::VariantInnerType;
use crate::compound::VariantSerializer;
use crate::element;
use crate::element::BinarySubtype;
use crate::element::ElementType;
use crate::element::ValueType;
use crate::element::MAX_BSON_SIZE;
use crate::error::Error;
use crate::little_endian;
use crate::model;
use crate::model::Outcome;
use crate::model::State;
use crate::text;
use crate::value;
use crate::value::Newtype;
use crate::value::Value;
use std::collections::VecDeque;
use vstd::prelude::*;

verus! {

/// Various bits of information that the serialized type can provide to the serializer to
/// inform the purpose of the next serialization step.
#[derive(Clone, Copy, Debug, PartialEq, Eq, Structural)]
pub enum SerializerHint {
    /// The type has said nothing.
    Absent,
    /// The next call to `serialize_bytes` is for the purposes of serializing a UUID.
    Uuid,
    /// The next call to `serialize_bytes` is for the purposes of serializing a raw document.
    RawDocument,
    /// The next call to `serialize_bytes` is for the purposes of serializing a raw array.
    RawArray,
}

impl SerializerHint {
    /// Hands out the hint and leaves none behind.
    pub fn take(&mut self) -> (r: SerializerHint)
        ensures
            r == *old(self),
            *final(self) == SerializerHint::Absent,
    {
        let hint = *self;
        *self = SerializerHint::Absent;
        hint
    }
}

/// The key that a value goes under.
#[derive(Debug)]
pub enum Key {
    Static(&'static str),
    Owned(String),
    Index(usize),
}

impl Key {
    /// The text of the key; an index is written in decimal.
    pub open spec fn text(self) -> Seq<char> {
        match self {
            Key::Static(k) => k@,
            Key::Owned(k) => k@,
            Key::Index(i) => text::decimal(i as nat),
        }
    }
}

/// Serializer used to convert a value into raw BSON bytes.
///
/// The length in front of each document is not computed here: the lengths are recorded
/// beforehand, in the order in which the documents open.
pub struct Serializer {
    writer: Vec<u8>,
    lens: VecDeque<i32>,
    started: bool,
    next_key: Option<Key>,
    /// Hint provided by the type being serialized.
    hint: SerializerHint,
    human_readable: bool,
}

impl View for Serializer {
    type V = State;

    closed spec fn view(&self) -> State {
        State {
            out: self.writer@,
            lens: self.lens@,
            started: self.started,
            next_key: match self.next_key {
                Some(key) => Some(key.text()),
                None => None,
            },
            hint: self.hint,
            human_readable: self.human_readable,
        }
    }
}

impl Serializer {
    /// A serializer that appends to `writer` and takes the lengths of documents from `lens`.
    pub fn new(writer: Vec<u8>, lens: VecDeque<i32>) -> (r: Serializer)
        ensures
            r@ == (State {
                out: writer@,
                lens: lens@,
                started: false,
                next_key: None,
                hint: SerializerHint::Absent,
                human_readable: false,
            }),
    {
        Serializer {
            writer,
            lens,
            started: false,
            next_key: None,
            hint: SerializerHint::Absent,
            human_readable: false,
        }
    }

    /// Convert this serializer into the vec of the serialized bytes.
    pub fn into_writer(self) -> (r: Vec<u8>)
        ensures
            r@ == self@.out,
    {
        self.writer
    }

    /// Appends bytes to the output.
    pub(crate) fn write_all(&mut self, bytes: &[u8])
        ensures
            final(self)@ == old(self)@.emit(bytes@),
    {
        self.writer.extend_from_slice(bytes);
        assert(self.writer@ =~= old(self).writer@ + bytes@);
    }

    /// Writes the next recorded length.
    pub fn write_next_len(&mut self) -> (r: Result<(), Error>)
        requires
            old(self)@.lens.len() > 0,
        ensures
            r is Ok,
            Outcome::Done(final(self)@) == model::next_len(old(self)@),
    {
        if let Some(len) = self.lens.pop_front() {
            assert(self.lens@ =~= old(self).lens@.drop_first());
            self.write_all(&little_endian::i32_to_bytes(len));
            self.started = true;
        }
        Ok(())
    }

    /// How many recorded lengths are left.
    pub fn lengths_left(&self) -> (r: usize)
        ensures
            r == self@.lens.len(),
    {
        self.lens.len()
    }

    /// What the course of serialization depends on.
    pub(crate) fn outlook(&self) -> (r: Outlook)
        ensures
            r.fits(self@),
    {
        let key = match &self.next_key {
            None => NextKey::Missing,
            Some(key) => {
                let nul = match key {
                    Key::Static(k) => text::contains_nul(k),
                    Key::Owned(k) => text::contains_nul(k.as_str()),
                    Key::Index(i) => {
                        proof {
                            text::law_numeral_has_no_nul(*i as nat);
                        }
                        false
                    },
                };
                if nul {
                    NextKey::Unwritable
                } else {
                    NextKey::Writable
                }
            },
        };
        Outlook {
            lengths: self.lens.len(),
            started: self.started,
            key,
            hint: self.hint,
            human_readable: self.human_readable,
        }
    }

    /// Sets the key that the next value goes under.
    pub fn set_next_key(&mut self, key: Key)
        ensures
            final(self)@ == old(self)@.with_key(key.text()),
    {
        self.next_key = Some(key);
    }

    /// Writes the type of the next value, and its key.
    pub fn write_key(&mut self, t: ElementType) -> (r: Result<(), Error>)
        ensures
            model::outcome(r, final(self)@) == model::key(old(self)@, t),
    {
        if let Some(key) = self.next_key.take() {
            self.write_all(&[t.code()]);
            assert(self@.out =~= old(self)@.out + seq![t.spec_code()]);
            match key {
                Key::Static(k) => self.write_cstring(k),
                Key::Owned(k) => self.write_cstring(k.as_str()),
                Key::Index(i) => self.write_cstring(text::decimal_string(i).as_str()),
            }
        } else {
            if !self.started && t == ElementType::EmbeddedDocument {
                // A top-level document has neither type nor key in front of it.
                Ok(())
            } else {
                Err(Error::non_document(t))
            }
        }
    }

    /// Writes a text as a C string; a text with a NUL character is refused.
    pub fn write_cstring(&mut self, s: &str) -> (r: Result<(), Error>)
        ensures
            model::outcome(r, final(self)@) == model::cstring(old(self)@, s@),
    {
        if text::contains_nul(s) {
            return Err(Error::InvalidCString(s.to_owned()));
        }
        self.write_all(s.as_bytes());
        self.write_all(&[0]);
        assert(self@.out =~= old(self)@.out + model::cstring_bytes(s@));
        Ok(())
    }

    /// Writes a text as a string, with its size in front.
    pub fn write_string(&mut self, s: &str) -> (r: Result<(), Error>)
        requires
            model::sizable(vstd::utf8::encode_utf8(s@).len()),
        ensures
            model::outcome(r, final(self)@) == model::string(old(self)@, s@),
    {
        let bytes = s.as_bytes();
        let size: i32 = #[verifier::truncate]
        (bytes.len() as i32);
        self.write_all(&little_endian::i32_to_bytes(size + 1));
        self.write_all(bytes);
        self.write_all(&[0]);
        assert(self@.out =~= old(self)@.out + model::string_bytes(s@));
        Ok(())
    }

    /// Writes a binary value; one over the size limit is refused.
    pub fn write_binary(&mut self, bytes: &[u8], subtype: BinarySubtype) -> (r: Result<(), Error>)
        ensures
            model::outcome(r, final(self)@) == model::binary(old(self)@, bytes@, subtype),
    {
        let len: usize = if let BinarySubtype::BinaryOld = subtype {
            bytes.len().saturating_add(4)
        } else {
            bytes.len()
        };

        if len > MAX_BSON_SIZE as usize {
            return Err(Error::binary_too_long(bytes.len()));
        }
        self.write_all(&little_endian::i32_to_bytes(len as i32));
        self.write_all(&[subtype.code()]);

        if let BinarySubtype::BinaryOld = subtype {
            self.write_all(&little_endian::i32_to_bytes(len as i32 - 4));
        }
        self.write_all(bytes);
        assert(self@.out =~= old(self)@.out + model::binary_bytes(bytes@, subtype));
        Ok(())
    }

    /// Whether values are to be serialized in human-readable form.
    pub fn is_human_readable(&self) -> (r: bool)
        ensures
            r == self@.human_readable,
    {
        self.human_readable
    }

    /// Serializes a truth value.
    pub fn serialize_bool(&mut self, v: bool) -> (r: Result<(), Error>)
        ensures
            model::outcome(r, final(self)@) == model::put_bool(old(self)@, v),
    {
        self.write_key(ElementType::Boolean)?;
        let byte: u8 = if v {
            1
        } else {
            0
        };
        let ghost before = self@;
        self.write_all(&[byte]);
        assert(self@.out =~= before.out + seq![byte]);
        Ok(())
    }

    /// Serializes an 8-bit integer as a 32-bit one.
    pub fn serialize_i8(&mut self, v: i8) -> (r: Result<(), Error>)
        ensures
            model::outcome(r, final(self)@) == model::put_i32(old(self)@, v as i32),
    {
        self.serialize_i32(v as i32)
    }

    /// Serializes a 16-bit integer as a 32-bit one.
    pub fn serialize_i16(&mut self, v: i16) -> (r: Result<(), Error>)
        ensures
            model::outcome(r, final(self)@) == model::put_i32(old(self)@, v as i32),
    {
        self.serialize_i32(v as i32)
    }

    /// Serializes a 32-bit integer.
    pub fn serialize_i32(&mut self, v: i32) -> (r: Result<(), Error>)
        ensures
            model::outcome(r, final(self)@) == model::put_i32(old(self)@, v),
    {
        self.write_key(ElementType::Int32)?;
        self.write_all(&little_endian::i32_to_bytes(v));
        Ok(())
    }

    /// Serializes a 64-bit integer.
    pub fn serialize_i64(&mut self, v: i64) -> (r: Result<(), Error>)
        ensures
            model::outcome(r, final(self)@) == model::put_i64(old(self)@, v),
    {
        self.write_key(ElementType::Int64)?;
        self.write_all(&little_endian::i64_to_bytes(v));
        Ok(())
    }

    /// Serializes an unsigned 8-bit integer as a 32-bit one.
    pub fn serialize_u8(&mut self, v: u8) -> (r: Result<(), Error>)
        ensures
            model::outcome(r, final(self)@) == model::put_i32(old(self)@, v as i32),
    {
        self.serialize_i32(v as i32)
    }

    /// Serializes an unsigned 16-bit integer as a 32-bit one.
    pub fn serialize_u16(&mut self, v: u16) -> (r: Result<(), Error>)
        ensures
            model::outcome(r, final(self)@) == model::put_i32(old(self)@, v as i32),
    {
        self.serialize_i32(v as i32)
    }

    /// Serializes an unsigned 32-bit integer as a 64-bit one.
    pub fn serialize_u32(&mut self, v: u32) -> (r: Result<(), Error>)
        ensures
            model::outcome(r, final(self)@) == model::put_i64(old(self)@, v as i64),
    {
        self.serialize_i64(v as i64)
    }

    /// Serializes an unsigned 64-bit integer, unless it is too large for a signed one.
    pub fn serialize_u64(&mut self, v: u64) -> (r: Result<(), Error>)
        ensures
            model::outcome(r, final(self)@) == model::put_u64(old(self)@, v),
    {
        if v <= i64::MAX as u64 {
            self.serialize_i64(v as i64)
        } else {
            Err(Error::UnsignedIntegerExceededRange(v))
        }
    }

    /// Serializes a double, given by its bit pattern.
    pub fn serialize_f64(&mut self, bits: u64) -> (r: Result<(), Error>)
        ensures
            model::outcome(r, final(self)@) == model::put_f64(old(self)@, bits),
    {
        self.write_key(ElementType::Double)?;
        self.write_all(&little_endian::u64_to_bytes(bits));
        Ok(())
    }

    /// Serializes a character as a text of one character.
    pub fn serialize_char(&mut self, v: char) -> (r: Result<(), Error>)
        ensures
            model::outcome(r, final(self)@) == model::put_text(old(self)@, seq![v]),
    {
        let mut s = String::new();
        s.push(v);
        proof {
            assert(s@ =~= seq![v]);
            model::lemma_char_sizable(v);
        }
        self.serialize_str(s.as_str())
    }

    /// Serializes a text.
    pub fn serialize_str(&mut self, v: &str) -> (r: Result<(), Error>)
        requires
            model::put_text(old(self)@, v@) !is Undefined,
        ensures
            model::outcome(r, final(self)@) == model::put_text(old(self)@, v@),
    {
        self.write_key(ElementType::String)?;
        self.write_string(v)?;
        Ok(())
    }

    /// Serializes bytes: as a raw document or array or as a UUID where the hint says so, and
    /// as generic binary where there is no hint.
    pub fn serialize_bytes(&mut self, v: &[u8]) -> (r: Result<(), Error>)
        ensures
            model::outcome(r, final(self)@) == model::put_bytes(old(self)@, v@),
    {
        let hint = self.hint.take();
        match hint {
            SerializerHint::RawDocument => {
                self.write_key(ElementType::EmbeddedDocument)?;
                self.write_all(v);
            },
            SerializerHint::RawArray => {
                self.write_key(ElementType::Array)?;
                self.write_all(v);
            },
            hint => {
                self.write_key(ElementType::Binary)?;

                let subtype = if matches!(hint, SerializerHint::Uuid) {
                    BinarySubtype::Uuid
                } else {
                    BinarySubtype::Generic
                };

                self.write_binary(v, subtype)?;
            },
        };
        Ok(())
    }

    /// Serializes an optional value that is not there.
    pub fn serialize_none(&mut self) -> (r: Result<(), Error>)
        ensures
            model::outcome(r, final(self)@) == model::put_null(old(self)@),
    {
        self.write_key(ElementType::Null)?;
        assert(self@.out =~= self@.out + seq![]);
        Ok(())
    }

    /// Serializes an optional value that is there.
    pub fn serialize_some(&mut self, value: &Value) -> (r: Result<(), Error>)
        requires
            model::run(old(self)@, *value) !is Undefined,
        ensures
            model::outcome(r, final(self)@) == model::run(old(self)@, *value),
        decreases value, 2nat,
    {
        self.serialize(value)
    }

    /// Serializes the unit value.
    pub fn serialize_unit(&mut self) -> (r: Result<(), Error>)
        ensures
            model::outcome(r, final(self)@) == model::put_null(old(self)@),
    {
        self.serialize_none()
    }

    /// Serializes a struct without fields.
    pub fn serialize_unit_struct(&mut self, _name: &'static str) -> (r: Result<(), Error>)
        ensures
            model::outcome(r, final(self)@) == model::put_null(old(self)@),
    {
        self.serialize_unit()
    }

    /// Serializes a variant without fields as its name.
    pub fn serialize_unit_variant(
        &mut self,
        _name: &'static str,
        _variant_index: u32,
        variant: &'static str,
    ) -> (r: Result<(), Error>)
        requires
            model::put_text(old(self)@, variant@) !is Undefined,
        ensures
            model::outcome(r, final(self)@) == model::put_text(old(self)@, variant@),
    {
        self.serialize_str(variant)
    }

    /// Makes the serializer ready for the inside of a newtype struct, as the name of the struct
    /// asks for: with a hint for the next bytes, or set to the human-readable form.
    pub fn enter_newtype(&mut self, name: &str) -> (r: Newtype)
        ensures
            r == value::newtype(name@),
            final(self)@ == model::enter_newtype(old(self)@, name@),
    {
        let newtype = Newtype::from_name(name);
        match newtype {
            Newtype::Uuid => self.hint = SerializerHint::Uuid,
            Newtype::RawDocument => self.hint = SerializerHint::RawDocument,
            Newtype::RawArray => self.hint = SerializerHint::RawArray,
            _ => {},
        }
        self.human_readable = newtype.inside_human_readable(self.human_readable);
        newtype
    }

    /// Serializes what is inside a newtype struct, as the name of the struct asks for.
    pub fn serialize_newtype_struct(
        &mut self,
        name: &'static str,
        value: &Value,
    ) -> (r: Result<(), Error>)
        requires
            model::run(model::enter_newtype(old(self)@, name@), *value) !is Undefined,
        ensures
            model::outcome(r, final(self)@) == model::leave_newtype(
                old(self)@,
                name@,
                model::run(model::enter_newtype(old(self)@, name@), *value),
            ),
        decreases value, 2nat,
    {
        let before = self.is_human_readable();
        let newtype = self.enter_newtype(name);
        let result = self.serialize(value);
        if let Newtype::HumanReadable = newtype {
            self.human_readable = before;
        }
        result
    }

    /// Serializes a variant with one unnamed field: a document that holds the field under the
    /// name of the variant.
    pub fn serialize_newtype_variant(
        &mut self,
        name: &'static str,
        variant_index: u32,
        variant: &'static str,
        value: &Value,
    ) -> (r: Result<(), Error>)
        requires
            model::newtype_variant(old(self)@, variant@, *value) !is Undefined,
        ensures
            model::outcome(r, final(self)@) == model::newtype_variant(
                old(self)@,
                variant@,
                *value,
            ),
        decreases value, 4nat,
    {
        self.write_key(ElementType::EmbeddedDocument)?;
        let mut d = DocumentSerializer::start(self)?;
        d.serialize_entry(variant, value)?;
        d.end_doc()?;
        Ok(())
    }

    /// Opens an array.
    pub fn serialize_seq<'a>(&'a mut self, _len: Option<usize>) -> (r: Result<
        DocumentSerializer<'a>,
        Error,
    >)
        requires
            model::open_document(old(self)@, ElementType::Array) !is Undefined,
        ensures
            r matches Ok(d) ==> d.num_keys_serialized == 0 && *final(d.root_serializer)
                == *final(self) && model::open_document(old(self)@, ElementType::Array)
                == Outcome::Done((*d.root_serializer)@),
            r matches Err(e) ==> model::open_document(old(self)@, ElementType::Array)
                == Outcome::Failed(final(self)@, e@),
    {
        self.write_key(ElementType::Array)?;
        DocumentSerializer::start(self)
    }

    /// Opens an array for a tuple.
    pub fn serialize_tuple<'a>(&'a mut self, len: usize) -> (r: Result<
        DocumentSerializer<'a>,
        Error,
    >)
        requires
            model::open_document(old(self)@, ElementType::Array) !is Undefined,
        ensures
            r matches Ok(d) ==> d.num_keys_serialized == 0 && *final(d.root_serializer)
                == *final(self) && model::open_document(old(self)@, ElementType::Array)
                == Outcome::Done((*d.root_serializer)@),
            r matches Err(e) ==> model::open_document(old(self)@, ElementType::Array)
                == Outcome::Failed(final(self)@, e@),
    {
        self.serialize_seq(Some(len))
    }

    /// Opens an array for a struct with unnamed fields.
    pub fn serialize_tuple_struct<'a>(&'a mut self, _name: &'static str, len: usize) -> (r: Result<
        DocumentSerializer<'a>,
        Error,
    >)
        requires
            model::open_document(old(self)@, ElementType::Array) !is Undefined,
        ensures
            r matches Ok(d) ==> d.num_keys_serialized == 0 && *final(d.root_serializer)
                == *final(self) && model::open_document(old(self)@, ElementType::Array)
                == Outcome::Done((*d.root_serializer)@),
            r matches Err(e) ==> model::open_document(old(self)@, ElementType::Array)
                == Outcome::Failed(final(self)@, e@),
    {
        self.serialize_seq(Some(len))
    }

    /// Opens the documents of a variant with unnamed fields.
    pub fn serialize_tuple_variant<'a>(
        &'a mut self,
        _name: &'static str,
        _variant_index: u32,
        variant: &'static str,
        _len: usize,
    ) -> (r: Result<VariantSerializer<'a>, Error>)
        requires
            model::open_variant(old(self)@, variant@, ElementType::Array) !is Undefined,
        ensures
            r matches Ok(v) ==> v.num_elements_serialized == 0 && *final(v.root_serializer)
                == *final(self) && model::open_variant(old(self)@, variant@, ElementType::Array)
                == Outcome::Done((*v.root_serializer)@),
            r matches Err(e) ==> model::open_variant(old(self)@, variant@, ElementType::Array)
                == Outcome::Failed(final(self)@, e@),
    {
        self.write_key(ElementType::EmbeddedDocument)?;
        VariantSerializer::start(self, variant, VariantInnerType::Tuple)
    }

    /// Opens a document for a mapping.
    pub fn serialize_map<'a>(&'a mut self, _len: Option<usize>) -> (r: Result<
        DocumentSerializer<'a>,
        Error,
    >)
        requires
            model::open_document(old(self)@, ElementType::EmbeddedDocument) !is Undefined,
        ensures
            r matches Ok(d) ==> d.num_keys_serialized == 0 && *final(d.root_serializer)
                == *final(self) && model::open_document(old(self)@, ElementType::EmbeddedDocument)
                == Outcome::Done((*d.root_serializer)@),
            r matches Err(e) ==> model::open_document(old(self)@, ElementType::EmbeddedDocument)
                == Outcome::Failed(final(self)@, e@),
    {
        self.write_key(ElementType::EmbeddedDocument)?;
        DocumentSerializer::start(self)
    }

    /// Opens a struct: a BSON value where its name is reserved for one, else a document.
    pub fn serialize_struct<'a>(&'a mut self, name: &'static str, _len: usize) -> (r: Result<
        StructSerializer<'a>,
        Error,
    >)
        requires
            model::open_struct(old(self)@, name@) !is Undefined,
        ensures
            r matches Ok(StructSerializer::Value(v)) ==> element::reserved_type(name@) == Some(
                v.value_type,
            ) && *final(v.root_serializer) == *final(self) && model::open_struct(old(self)@, name@)
                == Outcome::Done((*v.root_serializer)@),
            r matches Ok(StructSerializer::Document(d)) ==> element::reserved_type(name@) is None
                && d.num_keys_serialized == 0 && *final(d.root_serializer) == *final(self)
                && model::open_struct(old(self)@, name@) == Outcome::Done((*d.root_serializer)@),
            r matches Err(e) ==> model::open_struct(old(self)@, name@) == Outcome::Failed(
                final(self)@,
                e@,
            ),
    {
        match ValueType::from_name(name) {
            Some(value_type) => {
                self.write_key(value_type.element_type())?;
                Ok(StructSerializer::Value(ValueSerializer::new(self, value_type)))
            },
            None => {
                self.write_key(ElementType::EmbeddedDocument)?;
                Ok(StructSerializer::Document(DocumentSerializer::start(self)?))
            },
        }
    }

    /// Opens the documents of a variant with named fields.
    pub fn serialize_struct_variant<'a>(
        &'a mut self,
        _name: &'static str,
        _variant_index: u32,
        variant: &'static str,
        _len: usize,
    ) -> (r: Result<VariantSerializer<'a>, Error>)
        requires
            model::open_variant(old(self)@, variant@, ElementType::EmbeddedDocument) !is Undefined,
        ensures
            r matches Ok(v) ==> v.num_elements_serialized == 0 && *final(v.root_serializer)
                == *final(self) && model::open_variant(
                old(self)@,
                variant@,
                ElementType::EmbeddedDocument,
            ) == Outcome::Done((*v.root_serializer)@),
            r matches Err(e) ==> model::open_variant(
                old(self)@,
                variant@,
                ElementType::EmbeddedDocument,
            ) == Outcome::Failed(final(self)@, e@),
    {
        self.write_key(ElementType::EmbeddedDocument)?;
        VariantSerializer::start(self, variant, VariantInnerType::Struct)
    }

    /// Serializes a value of the data model.
    pub fn serialize(&mut self, v: &Value) -> (r: Result<(), Error>)
        requires
            model::run(old(self)@, *v) !is Undefined,
        ensures
            model::outcome(r, final(self)@) == model::run(old(self)@, *v),
        decreases v, 1nat,
    {
        match v {
            Value::Present(inside) => self.serialize_some(inside),
            Value::TwoForms { human_readable, compact } => if self.is_human_readable() {
                self.serialize(human_readable)
            } else {
                self.serialize(compact)
            },
            Value::NewtypeStruct { name, value } => self.serialize_newtype_struct(name, value),
            Value::NewtypeVariant { name, variant_index, variant, value } => {
                proof {
                    model::lemma_newtype_variant(old(self)@, *v);
                }
                self.serialize_newtype_variant(name, *variant_index, variant, value)
            },
            Value::Struct { name, fields } => {
                let mut d = self.serialize_struct(name, fields.len())?;
                d.serialize_fields(fields, Ghost(*v))?;
                d.end()
            },
            Value::Sequence(_) => self.serialize_group(v),
            Value::Tuple(_) => self.serialize_group(v),
            Value::TupleStruct { .. } => self.serialize_group(v),
            Value::TupleVariant { .. } => self.serialize_group(v),
            Value::Mapping(_) => self.serialize_group(v),
            Value::StructVariant { .. } => self.serialize_group(v),
            _ => self.serialize_scalar(v),
        }
    }

    /// Serializes an array, a mapping, or a variant with several fields.
    fn serialize_group(&mut self, v: &Value) -> (r: Result<(), Error>)
        requires
            v is Sequence || v is Tuple || v is TupleStruct || v is TupleVariant || v is Mapping
                || v is StructVariant,
            model::run(old(self)@, *v) !is Undefined,
        ensures
            model::outcome(r, final(self)@) == model::run(old(self)@, *v),
        decreases v, 0nat,
    {
        match v {
            Value::Sequence(elements) => {
                let mut d = self.serialize_seq(Some(elements.len()))?;
                d.serialize_elements(elements, Ghost(*v))?;
                d.end_doc()
            },
            Value::Tuple(elements) => {
                let mut d = self.serialize_tuple(elements.len())?;
                d.serialize_elements(elements, Ghost(*v))?;
                d.end_doc()
            },
            Value::TupleStruct { name, elements } => {
                let mut d = self.serialize_tuple_struct(name, elements.len())?;
                d.serialize_elements(elements, Ghost(*v))?;
                d.end_doc()
            },
            Value::TupleVariant { name, variant_index, variant, elements } => {
                let mut d = self.serialize_tuple_variant(
                    name,
                    *variant_index,
                    variant,
                    elements.len(),
                )?;
                d.serialize_tuple_fields(elements, Ghost(*v))?;
                d.end()
            },
            Value::Mapping(entries) => {
                let mut d = self.serialize_map(Some(entries.len()))?;
                d.serialize_entries(entries, Ghost(*v))?;
                d.end_doc()
            },
            Value::StructVariant { name, variant_index, variant, fields } => {
                let mut d = self.serialize_struct_variant(
                    name,
                    *variant_index,
                    variant,
                    fields.len(),
                )?;
                d.serialize_fields(fields, Ghost(*v))?;
                d.end()
            },
            _ => Ok(()),
        }
    }

    /// Serializes a value that has no other value inside and is not shown as a struct.
    fn serialize_scalar(&mut self, v: &Value) -> (r: Result<(), Error>)
        requires
            !model::is_container(*v),
            v !is Present,
            v !is TwoForms,
            v !is NewtypeStruct,
            v !is Struct,
            model::put_scalar(old(self)@, *v) !is Undefined,
        ensures
            model::outcome(r, final(self)@) == model::put_scalar(old(self)@, *v),
    {
        match v {
            Value::Bool(x) => self.serialize_bool(*x),
            Value::I8(x) => self.serialize_i8(*x),
            Value::I16(x) => self.serialize_i16(*x),
            Value::I32(x) => self.serialize_i32(*x),
            Value::I64(x) => self.serialize_i64(*x),
            Value::U8(x) => self.serialize_u8(*x),
            Value::U16(x) => self.serialize_u16(*x),
            Value::U32(x) => self.serialize_u32(*x),
            Value::U64(x) => self.serialize_u64(*x),
            Value::F64(bits) => self.serialize_f64(*bits),
            Value::Char(x) => self.serialize_char(*x),
            Value::Str(x) => self.serialize_str(x.as_str()),
            Value::Bytes(x) => self.serialize_bytes(x.as_slice()),
            Value::UnitVariant { name, variant_index, variant } => self.serialize_unit_variant(
                name,
                *variant_index,
                variant,
            ),
            Value::UnitStruct { name } => self.serialize_unit_struct(name),
            Value::Absent => self.serialize_none(),
            _ => self.serialize_unit(),
        }
    }
}

} // verus!
